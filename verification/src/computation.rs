//! The configuration-encoding interface.

use vstd::prelude::*;

use crate::term::Term;

mod default;

pub use default::get256_term;
pub use default::lemma_get256_eval;
pub use default::lemma_get_after_set;
pub use default::lemma_inc_dec_index_inverse;
pub use default::lemma_set256_eval;
pub use default::lemma_set_after_get;
pub use default::set256_sem;
pub use default::set256_term;
pub use default::set_input_spec;
pub use default::Computation256;

verus! {

/// Computation of a Turing machine, i.e., a sequence of configurations.
/// A configuration is the current state, current tape and index which
/// points to the current symbol.  Tapes are _conceptually_ infinite to
/// the right, but are _practically_ limited by the maximum tape length
/// during any step of the concrete computation.
///
/// Tapes are encoded as `l`-bit strings and indexed by `k`-bit strings.
/// Each operation is a fixed term; the spec function beside it names that
/// term, so a conforming implementation is deterministic by contract.
pub trait Computation {
    /// The term of `get`.
    spec fn get_spec() -> Term;

    /// Get tape symbol at index.
    ///
    /// `get: 2^l × 2^k → 2`
    fn get() -> (t: Term)
        ensures
            t == Self::get_spec(),
    ;

    /// The term of `set`.
    spec fn set_spec() -> Term;

    /// Set tape symbol at index to given symbol.
    ///
    /// `set: 2 × (2^l × 2^k) → 2^l`
    fn set() -> (t: Term)
        ensures
            t == Self::set_spec(),
    ;

    /// The term of `eq_tape`.
    spec fn eq_tape_spec() -> Term;

    /// Check equality of two tapes.
    ///
    /// `eq_tape: 2^l × 2^l → 2`
    fn eq_tape() -> (t: Term)
        ensures
            t == Self::eq_tape_spec(),
    ;

    /// The term of `eq_index`.
    spec fn eq_index_spec() -> Term;

    /// Check equality of two indices.
    ///
    /// `eq_index: 2^k × 2^k → 2`
    fn eq_index() -> (t: Term)
        ensures
            t == Self::eq_index_spec(),
    ;

    /// The term of `inc_index`.
    spec fn inc_index_spec() -> Term;

    /// Move the index one position forward.
    ///
    /// `inc_index: 2^k → 2^k`
    fn inc_index() -> (t: Term)
        ensures
            t == Self::inc_index_spec(),
    ;

    /// The term of `dec_index`.
    spec fn dec_index_spec() -> Term;

    /// Move the index one position backward.
    ///
    /// `dec_index: 2^k → 2^k`
    fn dec_index() -> (t: Term)
        ensures
            t == Self::dec_index_spec(),
    ;
}

} // verus!
