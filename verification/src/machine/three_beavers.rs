//! The three-state busy beaver.

use vstd::prelude::*;

use crate::machine::Machine;
use crate::term::bit_true_term;
use crate::term::cond_term;
use crate::term::not_term;
use crate::term::scribe_spec;
use crate::term::Term;
use crate::util::eq_22;
use crate::util::eq_22_term;
use crate::value::Value;

verus! {

/// Turing machine with three states that writes the most symbols upon the
/// empty input: it realizes the behaviour of the three-state busy beaver.
///
/// States are encoded as `m = 2`-bit strings.
pub struct ThreeBeavers {}

/// The term of `ThreeBeavers::state`.
pub open spec fn three_beavers_state_term() -> Term {
    let scribe_zero = scribe_spec(Value::u2_spec(0));
    let scribe_one = scribe_spec(Value::u2_spec(1));
    let scribe_two = scribe_spec(Value::u2_spec(2));
    let case_one_zero = Term::Case(Box::new(scribe_one), Box::new(scribe_zero));
    let adaptor = Term::Pair(Box::new(Term::Iden), Box::new(Term::Unit));
    let case_one_two = Term::Case(Box::new(scribe_one), Box::new(scribe_two));
    let adapted_case_one_two = Term::Comp(Box::new(adaptor), Box::new(case_one_two));
    let cond_two_case_one_two = cond_term(scribe_two, adapted_case_one_two);
    cond_term(case_one_zero, cond_two_case_one_two)
}

/// The term of `ThreeBeavers::initial`.
pub open spec fn three_beavers_initial_term() -> Term {
    cond_term(crate::term::bit_false_term(), not_term(Term::Iden))
}

impl Machine for ThreeBeavers {
    open spec fn left_spec() -> Term {
        Term::Drop(Box::new(Term::Take(Box::new(Term::Iden))))
    }

    /// `left: 2 × 2^2 → 2`
    fn left() -> (t: Term) {
        // 2 → 2
        let iden_2 = Term::iden();
        // 2 × 2 → 2
        let take_2_2 = Term::take(iden_2);
        // 2 × 2^2 → 2
        Term::drop(take_2_2)
    }

    open spec fn state_spec() -> Term {
        three_beavers_state_term()
    }

    /// `state: 2 × 2^2 → 2^2`
    fn state() -> (t: Term) {
        let zero = Value::u2(0);
        let one = Value::u2(1);
        let two = Value::u2(2);
        proof {
            crate::term::lemma_u2_scribable(0);
            crate::term::lemma_u2_scribable(1);
            crate::term::lemma_u2_scribable(2);
        }

        // 1 × 2 → 2^2
        let scribe_zero = Term::scribe(&zero);
        // 1 × 2 → 2^2
        let scribe_one = Term::scribe(&one);
        // 2 × 2 → 2^2
        let case_one_zero = Term::case(scribe_one, scribe_zero);

        // 2 → 2
        let iden_2 = Term::iden();
        // 2 → 1
        let unit_2 = Term::unit();
        // 2 → 2 × 1
        let adaptor = Term::pair(iden_2, unit_2);

        // 1 × 1 → 2^2
        let scribe_one = Term::scribe(&one);
        // 1 × 1 → 2^2
        let scribe_two = Term::scribe(&two);
        // 2 × 1 → 2^2
        let case_one_two = Term::case(scribe_one, scribe_two);
        // 2 → 2^2
        let adapted_case_one_two = Term::comp(adaptor, case_one_two);

        // 2 → 2^2
        let scribe_two = Term::scribe(&two);
        // 2 × 2 → 2^2
        let cond_two_case_one_two = Term::cond(scribe_two, adapted_case_one_two);

        // 2 × 2^2 → 2^2
        Term::cond(case_one_zero, cond_two_case_one_two)
    }

    open spec fn write_spec() -> Term {
        cond_term(bit_true_term(), cond_term(bit_true_term(), not_term(Term::Iden)))
    }

    /// `write: 2 × 2^2 → 2`
    fn write() -> (t: Term) {
        // 2 → 2
        let bit_true = Term::bit_true();
        // 2 → 2
        let iden_2 = Term::iden();
        // 2 → 2
        let not_2 = Term::not(iden_2);
        // 2 × 2 → 2
        let cond_true_not = Term::cond(bit_true, not_2);

        // 2^2 → 2
        let bit_true = Term::bit_true();
        // 2 × 2^2 → 2
        Term::cond(bit_true, cond_true_not)
    }

    open spec fn initial_spec() -> Term {
        three_beavers_initial_term()
    }

    /// `initial: 2^2 → 2`
    fn initial() -> (t: Term) {
        // 1 × 1 → 2
        let bit_false = Term::bit_false();
        // 2 → 2
        let iden_2 = Term::iden();
        // 2 → 2
        let not_2 = Term::not(iden_2);
        // 2 × 2 → 2
        Term::cond(bit_false, not_2)
    }

    open spec fn accepting_spec() -> Term {
        three_beavers_initial_term()
    }

    /// `accepting: 2^2 → 2`
    fn accepting() -> (t: Term) {
        // 2^2 → 2
        Self::initial()
    }

    open spec fn eq_state_spec() -> Term {
        eq_22_term()
    }

    /// `eq_state: 2^2 × 2^2 → 2`
    fn eq_state() -> (t: Term) {
        // 2^2 × 2^2 → 2
        eq_22()
    }
}

} // verus!
