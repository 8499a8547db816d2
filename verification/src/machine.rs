//! The transition-relation interface and the sample machines.

use vstd::prelude::*;

use crate::term::Term;

mod three_beavers;
mod trivial;
mod two_beavers;

pub use three_beavers::ThreeBeavers;
pub use trivial::Trivial;
pub use two_beavers::TwoBeavers;

verus! {

/// Definition of a Turing machine.  This includes the transition function
/// _(where to move the cursor, which symbol to write and which state to
/// go to, upon which input)_, as well as the initial and accepting state.
///
/// States are encoded as `m`-bit strings.  All six operations are pure,
/// total functions of their declared inputs: every (state, symbol) pair
/// maps to defined left/state/write values.  Each operation is a fixed
/// term; the spec function beside it names that term, so a conforming
/// implementation is deterministic by contract.
pub trait Machine {
    /// The term of `left`.
    spec fn left_spec() -> Term;

    /// Go left, given the current state and read tape symbol?
    ///
    /// `left: 2^m × 2 → 2`
    fn left() -> (t: Term)
        ensures
            t == Self::left_spec(),
    ;

    /// The term of `state`.
    spec fn state_spec() -> Term;

    /// Successor state, given the current state and read tape symbol.
    ///
    /// `state: 2^m × 2 → 2^m`
    fn state() -> (t: Term)
        ensures
            t == Self::state_spec(),
    ;

    /// The term of `write`.
    spec fn write_spec() -> Term;

    /// Tape symbol to write, given the current state and read tape symbol.
    ///
    /// `write: 2^m × 2 → 2`
    fn write() -> (t: Term)
        ensures
            t == Self::write_spec(),
    ;

    /// The term of `initial`.
    spec fn initial_spec() -> Term;

    /// Check if the given state is the initial state.
    ///
    /// `initial: 2^m → 2`
    fn initial() -> (t: Term)
        ensures
            t == Self::initial_spec(),
    ;

    /// The term of `accepting`.
    spec fn accepting_spec() -> Term;

    /// Check if the given state is the accepting state.
    ///
    /// `accepting: 2^m → 2`
    fn accepting() -> (t: Term)
        ensures
            t == Self::accepting_spec(),
    ;

    /// The term of `eq_state`.
    spec fn eq_state_spec() -> Term;

    /// Check equality of two states.
    ///
    /// `eq_state: 2^m × 2^m → 2`
    fn eq_state() -> (t: Term)
        ensures
            t == Self::eq_state_spec(),
    ;
}

} // verus!
