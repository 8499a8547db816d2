//! The trivial two-state machine.

use vstd::prelude::*;

use crate::machine::Machine;
use crate::term::bit_false_term;
use crate::term::bit_true_term;
use crate::term::cond_term;
use crate::term::Term;
use crate::util::eq_2;
use crate::util::eq_2_term;

verus! {

/// Trivial Turing machine with two states.
///
/// The machine transitions to the second state upon reading `1` and stays
/// there forever.  The cursor is shifted right in each step.  The tape is
/// left unchanged.
///
/// States are encoded as `m = 1`-bit strings.
pub struct Trivial {}

impl Machine for Trivial {
    open spec fn left_spec() -> Term {
        bit_false_term()
    }

    /// `left: 2 × 2 → 2`
    fn left() -> (t: Term) {
        // A → 2
        Term::bit_false()
    }

    open spec fn state_spec() -> Term {
        cond_term(bit_true_term(), Term::Iden)
    }

    /// `state: 2 × 2 → 2`
    fn state() -> (t: Term) {
        // 2 → 2
        let iden_2 = Term::iden();
        // 2 → 2
        let bit_true = Term::bit_true();
        // 2 × 2 → 2
        Term::cond(bit_true, iden_2)
    }

    open spec fn write_spec() -> Term {
        Term::Drop(Box::new(Term::Iden))
    }

    /// `write: 2 × 2 → 2`
    fn write() -> (t: Term) {
        // 2 → 2
        let iden_2 = Term::iden();
        // 2 × 2 → 2
        Term::drop(iden_2)
    }

    open spec fn initial_spec() -> Term {
        Term::Comp(
            Box::new(Term::Pair(Box::new(Term::Iden), Box::new(Term::Unit))),
            Box::new(Term::Case(Box::new(bit_true_term()), Box::new(bit_false_term()))),
        )
    }

    /// `initial: 2 → 2`
    fn initial() -> (t: Term) {
        // 2 → 2
        let iden_2 = Term::iden();
        // 2 → 1
        let unit_2 = Term::unit();
        // 2 → 2 × 1
        let pair_iden_2_unit_2 = Term::pair(iden_2, unit_2);
        // A → 2
        let bit_false = Term::bit_false();
        // B → 2
        let bit_true = Term::bit_true();
        // 2 × 1 → 2
        let case_true_false = Term::case(bit_true, bit_false);
        // 2 → 2
        Term::comp(pair_iden_2_unit_2, case_true_false)
    }

    open spec fn accepting_spec() -> Term {
        Term::Iden
    }

    /// `accepting: 2 → 2`
    fn accepting() -> (t: Term) {
        // 2 → 2
        Term::iden()
    }

    open spec fn eq_state_spec() -> Term {
        eq_2_term()
    }

    /// `eq_state: 2 × 2 → 2`
    fn eq_state() -> (t: Term) {
        // 2 × 2 → 2
        eq_2()
    }
}

} // verus!
