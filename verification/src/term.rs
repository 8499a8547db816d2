//! The minimal combinator-expression model.
//!
//! A term is an immutable, typed, point-free expression tree built from a
//! closed set of composition primitives; each non-leaf term exclusively
//! owns its children.  Every term has a content commitment computed
//! bottom-up from its tag and its children's commitments; a native
//! operation's commitment is a pinned constant, never derived from any
//! internal structure.  Commitments depend only on structure, never on
//! the witness values bound at finalize time.

use vstd::prelude::*;

use crate::cmr::cmr_case;
use crate::cmr::cmr_case_ext;
use crate::cmr::cmr_comp;
use crate::cmr::cmr_comp_ext;
use crate::cmr::cmr_drop;
use crate::cmr::cmr_drop_ext;
use crate::cmr::cmr_iden_ext;
use crate::cmr::cmr_injl;
use crate::cmr::cmr_injl_ext;
use crate::cmr::cmr_injr;
use crate::cmr::cmr_injr_ext;
use crate::cmr::cmr_pair;
use crate::cmr::cmr_pair_ext;
use crate::cmr::cmr_take;
use crate::cmr::cmr_take_ext;
use crate::cmr::cmr_unit_ext;
use crate::cmr::cmr_witness_ext;
use crate::cmr::iden_cmr;
use crate::cmr::unit_cmr;
use crate::cmr::witness_cmr;
use crate::cmr::Cmr32;
use crate::jet::turing::jet_cmr;
use crate::jet::turing::jet_cmr_spec;
use crate::jet::turing::TuringJetName;
use crate::value::Value;

verus! {

/// A combinator term.
#[derive(Debug)]
pub enum Term {
    /// The identity function.
    Iden,
    /// The constant unit function.
    Unit,
    /// Run the child, then inject its output into the left arm of a sum.
    Injl(Box<Term>),
    /// Run the child, then inject its output into the right arm of a sum.
    Injr(Box<Term>),
    /// Apply the child to the first component of a pair.
    Take(Box<Term>),
    /// Apply the child to the second component of a pair.
    Drop(Box<Term>),
    /// Feed the output of the first child into the second.
    Comp(Box<Term>, Box<Term>),
    /// Run both children on the same input and pair their outputs.
    Pair(Box<Term>, Box<Term>),
    /// On a pair whose first component is a sum, run the first child on a
    /// left injection and the second child on a right injection.
    Case(Box<Term>, Box<Term>),
    /// A case whose right branch is pruned to a placeholder commitment:
    /// reaching the pruned branch aborts execution, with the placeholder
    /// as the committed reason.
    AssertL(Box<Term>, Cmr32),
    /// A case whose left branch is pruned to a placeholder commitment.
    AssertR(Cmr32, Box<Term>),
    /// A placeholder bound to one witness value at finalize time.
    Witness,
    /// A native operation, opaque to the commitment scheme.
    Jet(TuringJetName),
}

/// How many witness placeholders a term holds.  Witnesses are bound at
/// finalize time in left-to-right structural order: for every combinator
/// with two children, all witnesses of the first child come before those
/// of the second.
pub open spec fn witness_count(t: Term) -> nat
    decreases t,
{
    match t {
        Term::Iden => 0,
        Term::Unit => 0,
        Term::Injl(s) => witness_count(*s),
        Term::Injr(s) => witness_count(*s),
        Term::Take(s) => witness_count(*s),
        Term::Drop(s) => witness_count(*s),
        Term::Comp(s, u) => witness_count(*s) + witness_count(*u),
        Term::Pair(s, u) => witness_count(*s) + witness_count(*u),
        Term::Case(s, u) => witness_count(*s) + witness_count(*u),
        Term::AssertL(s, _) => witness_count(*s),
        Term::AssertR(_, s) => witness_count(*s),
        Term::Witness => 1,
        Term::Jet(_) => 0,
    }
}

/// The content commitment of a term: a fixed initialization vector for
/// each leaf combinator, the engine's compression of the children's
/// commitments for each combinator with children, and the pinned constant
/// of each native operation.  An assertion commits exactly as a case
/// whose hidden child's commitment is the placeholder.
pub open spec fn cmr_spec(t: Term) -> Seq<u8>
    decreases t,
{
    match t {
        Term::Iden => iden_cmr(),
        Term::Unit => unit_cmr(),
        Term::Injl(s) => cmr_injl(cmr_spec(*s)),
        Term::Injr(s) => cmr_injr(cmr_spec(*s)),
        Term::Take(s) => cmr_take(cmr_spec(*s)),
        Term::Drop(s) => cmr_drop(cmr_spec(*s)),
        Term::Comp(s, u) => cmr_comp(cmr_spec(*s), cmr_spec(*u)),
        Term::Pair(s, u) => cmr_pair(cmr_spec(*s), cmr_spec(*u)),
        Term::Case(s, u) => cmr_case(cmr_spec(*s), cmr_spec(*u)),
        Term::AssertL(s, h) => cmr_case(cmr_spec(*s), h@),
        Term::AssertR(h, s) => cmr_case(h@, cmr_spec(*s)),
        Term::Witness => witness_cmr(),
        Term::Jet(name) => jet_cmr_spec(name),
    }
}

/// The constant-false bit: the left injection of unit.
pub open spec fn bit_false_term() -> Term {
    Term::Injl(Box::new(Term::Unit))
}

/// The constant-true bit: the right injection of unit.
pub open spec fn bit_true_term() -> Term {
    Term::Injr(Box::new(Term::Unit))
}

/// Branch on a bit: run `thn` on the rest of the input when the bit is
/// true, `els` when it is false.
pub open spec fn cond_term(thn: Term, els: Term) -> Term {
    Term::Case(Box::new(Term::Drop(Box::new(els))), Box::new(Term::Drop(Box::new(thn))))
}

/// The logical complement of a bit-valued term.
pub open spec fn not_term(s: Term) -> Term {
    Term::Comp(
        Box::new(Term::Pair(Box::new(s), Box::new(Term::Unit))),
        Box::new(Term::Case(Box::new(bit_true_term()), Box::new(bit_false_term()))),
    )
}

/// Assert that a bit-valued term returns true: behave as the constant
/// unit function when it does, and abort with the placeholder commitment
/// `failure` when it does not.
pub open spec fn assert_term(check: Term, failure: Cmr32) -> Term {
    Term::Comp(
        Box::new(Term::Pair(Box::new(check), Box::new(Term::Unit))),
        Box::new(Term::AssertR(failure, Box::new(Term::Unit))),
    )
}

/// Whether a value can be written as a constant term: words cannot, they
/// exist only as witness data.
pub open spec fn scribable(v: Value) -> bool
    decreases v,
{
    match v {
        Value::Unit => true,
        Value::Left(a) => scribable(*a),
        Value::Right(a) => scribable(*a),
        Value::Prod(a, b) => scribable(*a) && scribable(*b),
        Value::Word(_) => false,
    }
}

/// Two-bit values are scribable.
pub proof fn lemma_u2_scribable(n: u8)
    ensures
        scribable(Value::u2_spec(n)),
{
    assert(scribable(Value::u2_spec(n))) by {
        reveal_with_fuel(scribable, 4);
    }
}

/// The constant term that outputs `v` on every input.
pub open spec fn scribe_spec(v: Value) -> Term
    decreases v,
{
    match v {
        Value::Unit => Term::Unit,
        Value::Left(a) => Term::Injl(Box::new(scribe_spec(*a))),
        Value::Right(a) => Term::Injr(Box::new(scribe_spec(*a))),
        Value::Prod(a, b) => Term::Pair(Box::new(scribe_spec(*a)), Box::new(scribe_spec(*b))),
        Value::Word(_) => Term::Unit,
    }
}

impl Term {
    /// The identity combinator.
    pub fn iden() -> (t: Term)
        ensures
            t == Term::Iden,
    {
        Term::Iden
    }

    /// The unit combinator.
    pub fn unit() -> (t: Term)
        ensures
            t == Term::Unit,
    {
        Term::Unit
    }

    /// Inject the child's output into the left arm of a sum.
    pub fn injl(s: Term) -> (t: Term)
        ensures
            t == Term::Injl(Box::new(s)),
    {
        Term::Injl(Box::new(s))
    }

    /// Inject the child's output into the right arm of a sum.
    pub fn injr(s: Term) -> (t: Term)
        ensures
            t == Term::Injr(Box::new(s)),
    {
        Term::Injr(Box::new(s))
    }

    /// Apply the child to the first component of a pair.
    pub fn take(s: Term) -> (t: Term)
        ensures
            t == Term::Take(Box::new(s)),
    {
        Term::Take(Box::new(s))
    }

    /// Apply the child to the second component of a pair.
    pub fn drop(s: Term) -> (t: Term)
        ensures
            t == Term::Drop(Box::new(s)),
    {
        Term::Drop(Box::new(s))
    }

    /// Feed the output of `s` into `u`.
    pub fn comp(s: Term, u: Term) -> (t: Term)
        ensures
            t == Term::Comp(Box::new(s), Box::new(u)),
    {
        Term::Comp(Box::new(s), Box::new(u))
    }

    /// Run both children on the same input and pair their outputs.
    pub fn pair(s: Term, u: Term) -> (t: Term)
        ensures
            t == Term::Pair(Box::new(s), Box::new(u)),
    {
        Term::Pair(Box::new(s), Box::new(u))
    }

    /// Branch on the tag of the first component of a pair.
    pub fn case(s: Term, u: Term) -> (t: Term)
        ensures
            t == Term::Case(Box::new(s), Box::new(u)),
    {
        Term::Case(Box::new(s), Box::new(u))
    }

    /// A witness placeholder.
    pub fn witness() -> (t: Term)
        ensures
            t == Term::Witness,
    {
        Term::Witness
    }

    /// A native operation.
    pub fn jet(name: TuringJetName) -> (t: Term)
        ensures
            t == Term::Jet(name),
    {
        Term::Jet(name)
    }

    /// The constant-false bit.
    pub fn bit_false() -> (t: Term)
        ensures
            t == bit_false_term(),
    {
        Term::Injl(Box::new(Term::Unit))
    }

    /// The constant-true bit.
    pub fn bit_true() -> (t: Term)
        ensures
            t == bit_true_term(),
    {
        Term::Injr(Box::new(Term::Unit))
    }

    /// Branch on a bit: `thn` when it is true, `els` when it is false.
    pub fn cond(thn: Term, els: Term) -> (t: Term)
        ensures
            t == cond_term(thn, els),
    {
        Term::Case(Box::new(Term::Drop(Box::new(els))), Box::new(Term::Drop(Box::new(thn))))
    }

    /// The logical complement of a bit-valued term.
    pub fn not(s: Term) -> (t: Term)
        ensures
            t == not_term(s),
    {
        Term::Comp(
            Box::new(Term::Pair(Box::new(s), Box::new(Term::Unit))),
            Box::new(Term::Case(Box::new(Term::bit_true()), Box::new(Term::bit_false()))),
        )
    }

    /// Assert that a bit-valued term returns true, aborting with the
    /// placeholder commitment `failure` when it does not.
    pub fn assertion(check: Term, failure: Cmr32) -> (t: Term)
        ensures
            t == assert_term(check, failure),
    {
        Term::Comp(
            Box::new(Term::Pair(Box::new(check), Box::new(Term::Unit))),
            Box::new(Term::AssertR(failure, Box::new(Term::Unit))),
        )
    }

    /// The constant term that outputs `v` on every input.
    pub fn scribe(v: &Value) -> (t: Term)
        requires
            scribable(*v),
        ensures
            t == scribe_spec(*v),
        decreases *v,
    {
        match v {
            Value::Unit => Term::Unit,
            Value::Left(a) => Term::Injl(Box::new(Term::scribe(a))),
            Value::Right(a) => Term::Injr(Box::new(Term::scribe(a))),
            Value::Prod(a, b) => Term::Pair(
                Box::new(Term::scribe(a)),
                Box::new(Term::scribe(b)),
            ),
            Value::Word(_) => Term::Unit,
        }
    }

    /// How many witness placeholders this term holds, or nothing if the
    /// count does not fit in a machine word.
    pub fn count_witnesses(&self) -> (r: Option<usize>)
        ensures
            match r {
                Some(c) => c == witness_count(*self),
                None => witness_count(*self) > usize::MAX,
            },
        decreases *self,
    {
        match self {
            Term::Iden => Some(0),
            Term::Unit => Some(0),
            Term::Injl(s) => s.count_witnesses(),
            Term::Injr(s) => s.count_witnesses(),
            Term::Take(s) => s.count_witnesses(),
            Term::Drop(s) => s.count_witnesses(),
            Term::Comp(s, u) => match (s.count_witnesses(), u.count_witnesses()) {
                (Some(a), Some(b)) => a.checked_add(b),
                _ => None,
            },
            Term::Pair(s, u) => match (s.count_witnesses(), u.count_witnesses()) {
                (Some(a), Some(b)) => a.checked_add(b),
                _ => None,
            },
            Term::Case(s, u) => match (s.count_witnesses(), u.count_witnesses()) {
                (Some(a), Some(b)) => a.checked_add(b),
                _ => None,
            },
            Term::AssertL(s, _) => s.count_witnesses(),
            Term::AssertR(_, s) => s.count_witnesses(),
            Term::Witness => Some(1),
            Term::Jet(_) => Some(0),
        }
    }

    /// The content commitment of this term.
    pub fn commitment(&self) -> (c: Cmr32)
        ensures
            c@ == cmr_spec(*self),
        decreases *self,
    {
        match self {
            Term::Iden => cmr_iden_ext(),
            Term::Unit => cmr_unit_ext(),
            Term::Injl(s) => {
                let k = s.commitment();
                cmr_injl_ext(&k)
            },
            Term::Injr(s) => {
                let k = s.commitment();
                cmr_injr_ext(&k)
            },
            Term::Take(s) => {
                let k = s.commitment();
                cmr_take_ext(&k)
            },
            Term::Drop(s) => {
                let k = s.commitment();
                cmr_drop_ext(&k)
            },
            Term::Comp(s, u) => {
                let l = s.commitment();
                let r = u.commitment();
                cmr_comp_ext(&l, &r)
            },
            Term::Pair(s, u) => {
                let l = s.commitment();
                let r = u.commitment();
                cmr_pair_ext(&l, &r)
            },
            Term::Case(s, u) => {
                let l = s.commitment();
                let r = u.commitment();
                cmr_case_ext(&l, &r)
            },
            Term::AssertL(s, h) => {
                let l = s.commitment();
                cmr_case_ext(&l, h)
            },
            Term::AssertR(h, s) => {
                let r = s.commitment();
                cmr_case_ext(h, &r)
            },
            Term::Witness => cmr_witness_ext(),
            Term::Jet(name) => jet_cmr(*name),
        }
    }
}

} // verus!
