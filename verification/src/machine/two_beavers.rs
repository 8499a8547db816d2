//! The two-state busy beaver.

use vstd::prelude::*;

use crate::machine::Machine;
use crate::term::bit_false_term;
use crate::term::bit_true_term;
use crate::term::cond_term;
use crate::term::Term;
use crate::util::eq_2;
use crate::util::eq_2_term;

verus! {

/// Turing machine with two states that writes the most symbols upon the
/// empty input: it realizes the behaviour of the two-state busy beaver.
///
/// States are encoded as `m = 1`-bit strings.
pub struct TwoBeavers {}

impl Machine for TwoBeavers {
    open spec fn left_spec() -> Term {
        let case_false_true = Term::Case(Box::new(bit_false_term()), Box::new(bit_true_term()));
        let adaptor = Term::Pair(Box::new(Term::Iden), Box::new(Term::Unit));
        let adapted_case_false_true = Term::Comp(Box::new(adaptor), Box::new(case_false_true));
        cond_term(bit_true_term(), adapted_case_false_true)
    }

    /// `left: 2 × 2 → 2`
    fn left() -> (t: Term) {
        // 1 × 1 → 2
        let bit_false = Term::bit_false();
        // 1 × 1 → 2
        let bit_true = Term::bit_true();
        // 2 × 1 → 2
        let case_false_true = Term::case(bit_false, bit_true);
        // 2 → 2
        let iden_2 = Term::iden();
        // 2 → 1
        let unit_2 = Term::unit();
        // 2 → 2 × 1
        let adaptor = Term::pair(iden_2, unit_2);
        // 2 → 2
        let adapted_case_false_true = Term::comp(adaptor, case_false_true);
        // 2 → 2
        let bit_true = Term::bit_true();
        // 2 × 2 → 2
        Term::cond(bit_true, adapted_case_false_true)
    }

    open spec fn state_spec() -> Term {
        let case_true_false = Term::Case(Box::new(bit_true_term()), Box::new(bit_false_term()));
        let adaptor = Term::Pair(
            Box::new(Term::Drop(Box::new(Term::Iden))),
            Box::new(Term::Unit),
        );
        Term::Comp(Box::new(adaptor), Box::new(case_true_false))
    }

    /// `state: 2 × 2 → 2`
    fn state() -> (t: Term) {
        // 1 × 1 → 2
        let bit_false = Term::bit_false();
        // 1 × 1 → 2
        let bit_true = Term::bit_true();
        // 2 × 1 → 2
        let case_true_false = Term::case(bit_true, bit_false);
        // 2 → 2
        let iden_2 = Term::iden();
        // 2 × 2 → 2
        let drop_2_2 = Term::drop(iden_2);
        // 2 × 2 → 1
        let unit_2 = Term::unit();
        // 2 × 2 → 2 × 1
        let adaptor = Term::pair(drop_2_2, unit_2);
        // 2 × 2 → 2
        Term::comp(adaptor, case_true_false)
    }

    open spec fn write_spec() -> Term {
        bit_true_term()
    }

    /// `write: 2 × 2 → 2`
    fn write() -> (t: Term) {
        // 2 × 2 → 2
        Term::bit_true()
    }

    open spec fn initial_spec() -> Term {
        Term::Comp(
            Box::new(Term::Pair(Box::new(Term::Iden), Box::new(Term::Unit))),
            Box::new(Term::Case(Box::new(bit_true_term()), Box::new(bit_false_term()))),
        )
    }

    /// `initial: 2 → 2`
    fn initial() -> (t: Term) {
        // 2 → 2
        let iden2 = Term::iden();
        // 2 → 1
        let unit2 = Term::unit();
        // 2 → 2 × 1
        let pair_iden2_unit2 = Term::pair(iden2, unit2);
        // A → 2
        let bit_false = Term::bit_false();
        // B → 2
        let bit_true = Term::bit_true();
        // 2 × 1 → 2
        let case_true_false = Term::case(bit_true, bit_false);
        // 2 → 2
        Term::comp(pair_iden2_unit2, case_true_false)
    }

    open spec fn accepting_spec() -> Term {
        Term::Comp(
            Box::new(Term::Pair(Box::new(Term::Iden), Box::new(Term::Unit))),
            Box::new(Term::Case(Box::new(bit_false_term()), Box::new(bit_true_term()))),
        )
    }

    /// `accepting: 2 → 2`
    fn accepting() -> (t: Term) {
        // 2 → 2
        let iden2 = Term::iden();
        // 2 → 1
        let unit2 = Term::unit();
        // 2 → 2 × 1
        let pair_iden2_unit2 = Term::pair(iden2, unit2);
        // A → 2
        let bit_false = Term::bit_false();
        // B → 2
        let bit_true = Term::bit_true();
        // 2 × 1 → 2
        let case_false_true = Term::case(bit_false, bit_true);
        // 2 → 2
        Term::comp(pair_iden2_unit2, case_false_true)
    }

    open spec fn eq_state_spec() -> Term {
        eq_2_term()
    }

    /// `eq_state: 2 × 2 → 2`
    fn eq_state() -> (t: Term) {
        // 2 × 2 → 2
        eq_2()
    }
}

} // verus!
