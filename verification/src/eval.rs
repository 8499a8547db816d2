//! Evaluation of finalized combinator programs.
//!
//! Execution is a pure function of the program and its input: a fixed,
//! statically bounded number of steps with no unbounded loops.  The only
//! failure modes are an assertion failure (the intended "trace is
//! invalid" verdict, carrying the placeholder commitment of the failing
//! checkpoint), a domain error from a native operation, and a type error
//! for values of the wrong shape.

use vstd::prelude::*;

use crate::cmr::Cmr32;
use crate::jet::application::jet_sem;
use crate::jet::application::Turing;
use crate::jet::application::TuringError;
use crate::term::cmr_spec;
use crate::term::witness_count;
use crate::term::Term;
use crate::value::Value;

verus! {

/// What a term returns on a value.  `ws` is the witness sequence of the
/// whole program and `i` the index of the first witness placeholder of
/// this subtree in the finalize-time binding order: for combinators with
/// two children, the second child's witnesses start after all of the
/// first child's.
pub open spec fn eval_spec(t: Term, v: Value, ws: Seq<Value>, i: int) -> Result<
    Value,
    TuringError,
>
    decreases t,
{
    match t {
        Term::Iden => Ok(v),
        Term::Unit => Ok(Value::Unit),
        Term::Injl(s) => match eval_spec(*s, v, ws, i) {
            Ok(a) => Ok(Value::Left(Box::new(a))),
            Err(e) => Err(e),
        },
        Term::Injr(s) => match eval_spec(*s, v, ws, i) {
            Ok(a) => Ok(Value::Right(Box::new(a))),
            Err(e) => Err(e),
        },
        Term::Take(s) => match v {
            Value::Prod(a, _) => eval_spec(*s, *a, ws, i),
            _ => Err(TuringError::TypeError),
        },
        Term::Drop(s) => match v {
            Value::Prod(_, b) => eval_spec(*s, *b, ws, i),
            _ => Err(TuringError::TypeError),
        },
        Term::Comp(s, u) => match eval_spec(*s, v, ws, i) {
            Ok(a) => eval_spec(*u, a, ws, i + witness_count(*s)),
            Err(e) => Err(e),
        },
        Term::Pair(s, u) => match eval_spec(*s, v, ws, i) {
            Ok(a) => match eval_spec(*u, v, ws, i + witness_count(*s)) {
                Ok(b) => Ok(Value::Prod(Box::new(a), Box::new(b))),
                Err(e) => Err(e),
            },
            Err(e) => Err(e),
        },
        Term::Case(s, u) => match v {
            Value::Prod(a, c) => match *a {
                Value::Left(x) => eval_spec(*s, Value::Prod(x, c), ws, i),
                Value::Right(x) => eval_spec(*u, Value::Prod(x, c), ws, i + witness_count(*s)),
                _ => Err(TuringError::TypeError),
            },
            _ => Err(TuringError::TypeError),
        },
        Term::AssertL(s, h) => match v {
            Value::Prod(a, c) => match *a {
                Value::Left(x) => eval_spec(*s, Value::Prod(x, c), ws, i),
                Value::Right(_) => Err(TuringError::AssertionFailure(h)),
                _ => Err(TuringError::TypeError),
            },
            _ => Err(TuringError::TypeError),
        },
        Term::AssertR(h, s) => match v {
            Value::Prod(a, c) => match *a {
                Value::Left(_) => Err(TuringError::AssertionFailure(h)),
                Value::Right(x) => eval_spec(*s, Value::Prod(x, c), ws, i),
                _ => Err(TuringError::TypeError),
            },
            _ => Err(TuringError::TypeError),
        },
        Term::Witness => if 0 <= i < ws.len() {
            Ok(ws[i])
        } else {
            Err(TuringError::TypeError)
        },
        Term::Jet(name) => jet_sem(name, v),
    }
}

/// The number of witness placeholders of a term that is known to be
/// bounded by the length of an existing vector.
fn count_witnesses_bounded(t: &Term) -> (c: usize)
    requires
        witness_count(*t) <= usize::MAX,
    ensures
        c == witness_count(*t),
{
    match t.count_witnesses() {
        Some(c) => c,
        None => {
            proof {
                assert(false);
            }
            0
        },
    }
}

/// Evaluate a term on a value, reading witness placeholders from `ws`
/// starting at index `i`.
fn eval(t: &Term, v: &Value, ws: &Vec<Value>, i: usize) -> (r: Result<Value, TuringError>)
    requires
        i + witness_count(*t) <= ws@.len(),
    ensures
        r == eval_spec(*t, *v, ws@, i as int),
    decreases *t,
{
    match t {
        Term::Iden => Ok(v.duplicate()),
        Term::Unit => Ok(Value::Unit),
        Term::Injl(s) => match eval(s, v, ws, i) {
            Ok(a) => Ok(Value::Left(Box::new(a))),
            Err(e) => Err(e),
        },
        Term::Injr(s) => match eval(s, v, ws, i) {
            Ok(a) => Ok(Value::Right(Box::new(a))),
            Err(e) => Err(e),
        },
        Term::Take(s) => match v {
            Value::Prod(a, _) => eval(s, a, ws, i),
            _ => Err(TuringError::TypeError),
        },
        Term::Drop(s) => match v {
            Value::Prod(_, b) => eval(s, b, ws, i),
            _ => Err(TuringError::TypeError),
        },
        Term::Comp(s, u) => {
            proof {
                assert(ws.len() == ws@.len());
                assert(witness_count(*t) == witness_count(**s) + witness_count(**u));
            }
            match eval(s, v, ws, i) {
                Ok(a) => {
                    let cs = count_witnesses_bounded(s);
                    eval(u, &a, ws, i + cs)
                },
                Err(e) => Err(e),
            }
        },
        Term::Pair(s, u) => {
            proof {
                assert(ws.len() == ws@.len());
                assert(witness_count(*t) == witness_count(**s) + witness_count(**u));
            }
            match eval(s, v, ws, i) {
                Ok(a) => {
                    let cs = count_witnesses_bounded(s);
                    match eval(u, v, ws, i + cs) {
                        Ok(b) => Ok(Value::Prod(Box::new(a), Box::new(b))),
                        Err(e) => Err(e),
                    }
                },
                Err(e) => Err(e),
            }
        },
        Term::Case(s, u) => {
            proof {
                assert(ws.len() == ws@.len());
                assert(witness_count(*t) == witness_count(**s) + witness_count(**u));
            }
            match v {
            Value::Prod(a, c) => match &**a {
                Value::Left(x) => {
                    let inner = Value::Prod(Box::new(x.duplicate()), Box::new(c.duplicate()));
                    eval(s, &inner, ws, i)
                },
                Value::Right(x) => {
                    let inner = Value::Prod(Box::new(x.duplicate()), Box::new(c.duplicate()));
                    let cs = count_witnesses_bounded(s);
                    eval(u, &inner, ws, i + cs)
                },
                _ => Err(TuringError::TypeError),
            },
            _ => Err(TuringError::TypeError),
            }
        },
        Term::AssertL(s, h) => match v {
            Value::Prod(a, c) => match &**a {
                Value::Left(x) => {
                    let inner = Value::Prod(Box::new(x.duplicate()), Box::new(c.duplicate()));
                    eval(s, &inner, ws, i)
                },
                Value::Right(_) => Err(TuringError::AssertionFailure(*h)),
                _ => Err(TuringError::TypeError),
            },
            _ => Err(TuringError::TypeError),
        },
        Term::AssertR(h, s) => match v {
            Value::Prod(a, c) => match &**a {
                Value::Left(_) => Err(TuringError::AssertionFailure(*h)),
                Value::Right(x) => {
                    let inner = Value::Prod(Box::new(x.duplicate()), Box::new(c.duplicate()));
                    eval(s, &inner, ws, i)
                },
                _ => Err(TuringError::TypeError),
            },
            _ => Err(TuringError::TypeError),
        },
        Term::Witness => Ok(ws[i].duplicate()),
        Term::Jet(name) => Turing::exec_jet(*name, v),
    }
}

/// What executing a finalized program returns: the witness count must
/// match the bound sequence exactly, and the term is then evaluated with
/// the program's input.
pub open spec fn execute_spec(t: Term, ws: Seq<Value>, input: Value) -> Result<
    Value,
    TuringError,
> {
    if witness_count(t) == ws.len() {
        eval_spec(t, input, ws, 0)
    } else {
        Err(TuringError::TypeError)
    }
}

/// A finalized program: a term together with the witness values bound to
/// its placeholders, immutable thereafter.
#[derive(Debug)]
pub struct Program {
    term: Term,
    witness: Vec<Value>,
}

impl Program {
    /// The term of the program.
    pub closed spec fn term_spec(&self) -> Term {
        self.term
    }

    /// The witness values bound to the program.
    pub closed spec fn witness_spec(&self) -> Seq<Value> {
        self.witness@
    }

    /// Bind witness values to a term, in left-to-right structural order,
    /// one value per witness placeholder.  A count mismatch is a type
    /// error, surfaced here at finalize time.
    pub fn finalize(term: Term, witness: Vec<Value>) -> (r: Result<Program, TuringError>)
        ensures
            match r {
                Ok(p) => p.term_spec() == term && p.witness_spec() == witness@
                    && witness_count(term) == witness@.len(),
                Err(e) => e matches TuringError::TypeError && witness_count(term)
                    != witness@.len(),
            },
    {
        let n = witness.len();
        match term.count_witnesses() {
            Some(c) => {
                if c == n {
                    Ok(Program { term, witness })
                } else {
                    Err(TuringError::TypeError)
                }
            },
            None => Err(TuringError::TypeError),
        }
    }

    /// The content commitment of the program: that of its term, unchanged
    /// by which witness values are bound.
    pub fn commitment(&self) -> (c: Cmr32)
        ensures
            c@ == cmr_spec(self.term_spec()),
    {
        self.term.commitment()
    }

    /// Run the program on an input value.
    pub fn execute(&self, input: &Value) -> (r: Result<Value, TuringError>)
        ensures
            r == execute_spec(self.term_spec(), self.witness_spec(), *input),
    {
        let n = self.witness.len();
        match self.term.count_witnesses() {
            Some(c) => {
                if c == n {
                    eval(&self.term, input, &self.witness, 0)
                } else {
                    Err(TuringError::TypeError)
                }
            },
            None => Err(TuringError::TypeError),
        }
    }
}

/// An assertion behaves as the constant unit function when its check
/// returns true, and aborts with its placeholder commitment as the
/// committed reason when the check returns false.
pub proof fn lemma_assertion_behavior(
    check: Term,
    failure: Cmr32,
    v: Value,
    ws: Seq<Value>,
    i: int,
)
    ensures
        eval_spec(check, v, ws, i) == Result::<Value, TuringError>::Ok(Value::bit_spec(true))
            ==> eval_spec(crate::term::assert_term(check, failure), v, ws, i) == Result::<
            Value,
            TuringError,
        >::Ok(Value::Unit),
        eval_spec(check, v, ws, i) == Result::<Value, TuringError>::Ok(Value::bit_spec(false))
            ==> eval_spec(crate::term::assert_term(check, failure), v, ws, i) == Result::<
            Value,
            TuringError,
        >::Err(TuringError::AssertionFailure(failure)),
{
    reveal_with_fuel(eval_spec, 5);
    reveal_with_fuel(witness_count, 5);
}

/// Two programs over the same term have the same commitment, whatever
/// witness values were bound to each: the commitment is structural.
pub proof fn lemma_commitment_independent_of_witness(p1: Program, p2: Program)
    requires
        p1.term_spec() == p2.term_spec(),
    ensures
        cmr_spec(p1.term_spec()) == cmr_spec(p2.term_spec()),
{
}

} // verus!
