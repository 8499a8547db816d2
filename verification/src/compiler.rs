//! The trace-verification compiler.
//!
//! Given a transition relation, a configuration encoding and a step
//! count, the compiler emits a single combinator term that certifies an
//! n-step execution trace: per-step predicates compare each supplied
//! configuration against the one computed from its predecessor, boundary
//! predicates pin the first state to `initial` and the last to
//! `accepting`, and a left fold chains the steps so that the carried
//! state stays one configuration pair regardless of n.  Compilation is
//! deterministic: the same inputs yield the same term, hence the same
//! top-level commitment.

use vstd::prelude::*;

use core::marker::PhantomData;

use crate::cmr::cmr32_of;
use crate::cmr::lemma_cmr32_of_view;
use crate::cmr::Cmr32;
use crate::computation::lemma_get256_eval;
use crate::computation::lemma_set256_eval;
use crate::computation::set256_sem;
use crate::computation::set256_term;
use crate::computation::set_input_spec;
use crate::computation::Computation;
use crate::computation::Computation256;
use crate::eval::eval_spec;
use crate::eval::execute_spec;
use crate::eval::lemma_assertion_behavior;
use crate::jet::application::and_words;
use crate::jet::application::is_one_hot;
use crate::jet::application::is_zero_word;
use crate::jet::application::one_hot_pos;
use crate::jet::application::one_hot_word;
use crate::jet::application::right_shift_spec;
use crate::jet::application::TuringError;
use crate::machine::Machine;
use crate::machine::Trivial;
use crate::term::assert_term;
use crate::term::cmr_spec;
use crate::term::cond_term;
use crate::term::witness_count;
use crate::term::Term;
use crate::util::configuration_spec;
use crate::value::lemma_word_with;
use crate::value::word_with;
use crate::value::Value;

verus! {

broadcast use vstd::array::group_array_axioms;

/// The compiler was asked for a trace of fewer than two configurations:
/// a trace must contain at least an initial and an accepting one.
#[derive(Clone, Copy, Debug)]
pub struct CompileConfigError;

/// The placeholder commitment of a pruned state check.
pub open spec fn state_failure_cmr() -> Cmr32 {
    cmr32_of(vstd::array::spec_array_fill_for_copy_type::<u8, 32>(0u8))
}

/// The placeholder commitment of a pruned index check.
pub open spec fn index_failure_cmr() -> Cmr32 {
    cmr32_of(vstd::array::spec_array_fill_for_copy_type::<u8, 32>(1u8))
}

/// The placeholder commitment of a pruned tape check.
pub open spec fn tape_failure_cmr() -> Cmr32 {
    cmr32_of(vstd::array::spec_array_fill_for_copy_type::<u8, 32>(2u8))
}

/// The placeholder commitment of a pruned initial-state check.
pub open spec fn first_failure_cmr() -> Cmr32 {
    cmr32_of(vstd::array::spec_array_fill_for_copy_type::<u8, 32>(3u8))
}

/// The placeholder commitment of a pruned accepting-state check.
pub open spec fn last_failure_cmr() -> Cmr32 {
    cmr32_of(vstd::array::spec_array_fill_for_copy_type::<u8, 32>(4u8))
}

/// The five placeholder commitments — one per per-step check and one per
/// boundary check — are pairwise distinct, so a later auditor can
/// distinguish which checkpoint failed rather than collapsing all failure
/// causes into one committed reason.
pub proof fn lemma_placeholder_commitments_distinct()
    ensures
        state_failure_cmr()@ != index_failure_cmr()@,
        state_failure_cmr()@ != tape_failure_cmr()@,
        state_failure_cmr()@ != first_failure_cmr()@,
        state_failure_cmr()@ != last_failure_cmr()@,
        index_failure_cmr()@ != tape_failure_cmr()@,
        index_failure_cmr()@ != first_failure_cmr()@,
        index_failure_cmr()@ != last_failure_cmr()@,
        tape_failure_cmr()@ != first_failure_cmr()@,
        tape_failure_cmr()@ != last_failure_cmr()@,
        first_failure_cmr()@ != last_failure_cmr()@,
{
    broadcast use lemma_cmr32_of_view;

    assert(state_failure_cmr()@[0] == 0);
    assert(index_failure_cmr()@[0] == 1);
    assert(tape_failure_cmr()@[0] == 2);
    assert(first_failure_cmr()@[0] == 3);
    assert(last_failure_cmr()@[0] == 4);
}

/// Produces programs that verify that a given Turing machine computes a
/// given computation.
///
/// The machine is hard-coded by `M`.  The computation is provided to the
/// program as witness and must be of the format given by `C`.
pub struct Verifier<C: Computation, M: Machine> {
    _computation: PhantomData<C>,
    _machine: PhantomData<M>,
}

impl<C: Computation, M: Machine> Verifier<C, M> {
    /// The term that reads, from a pair of adjacent configurations, the
    /// current state together with the symbol at the current index.
    pub open spec fn pair_q_b_spec() -> Term {
        let q = Term::Take(Box::new(Term::Take(Box::new(Term::Iden))));
        let pair_w_i = Term::Take(Box::new(Term::Drop(Box::new(Term::Iden))));
        let b = Term::Comp(Box::new(pair_w_i), Box::new(C::get_spec()));
        Term::Pair(Box::new(q), Box::new(b))
    }

    /// Read the current state and the symbol at the current index.
    pub fn pair_q_b() -> (t: Term)
        ensures
            t == Self::pair_q_b_spec(),
    {
        let iden_m = Term::iden();
        let take_m_lk = Term::take(iden_m);
        let q = Term::take(take_m_lk);

        let iden_lk = Term::iden();
        let drop_m_lk = Term::drop(iden_lk);
        let pair_w_i = Term::take(drop_m_lk);
        let get = C::get();
        let b = Term::comp(pair_w_i, get);

        Term::pair(q, b)
    }

    /// The term that compares the supplied next state against the one
    /// computed by the transition relation.
    pub open spec fn check_state_spec() -> Term {
        let computed_q_prime = Term::Comp(
            Box::new(Self::pair_q_b_spec()),
            Box::new(M::state_spec()),
        );
        let q_prime = Term::Drop(Box::new(Term::Take(Box::new(Term::Iden))));
        Term::Comp(
            Box::new(Term::Pair(Box::new(computed_q_prime), Box::new(q_prime))),
            Box::new(M::eq_state_spec()),
        )
    }

    /// Compare the supplied next state against the computed one.
    pub fn check_state() -> (t: Term)
        ensures
            t == Self::check_state_spec(),
    {
        let pair_q_b = Self::pair_q_b();
        let state = M::state();
        let computed_q_prime = Term::comp(pair_q_b, state);

        let iden_m = Term::iden();
        let take_m_lk = Term::take(iden_m);
        let q_prime = Term::drop(take_m_lk);

        let pair_computed_q_prime_q_prime = Term::pair(computed_q_prime, q_prime);
        let eq_state = M::eq_state();

        Term::comp(pair_computed_q_prime_q_prime, eq_state)
    }

    /// The term that compares the supplied next index against the one
    /// computed by moving the current index in the direction the
    /// transition relation chose.
    pub open spec fn check_index_spec() -> Term {
        let left = Term::Comp(Box::new(Self::pair_q_b_spec()), Box::new(M::left_spec()));
        let drop_m_lk = Term::Drop(Box::new(Term::Drop(Box::new(Term::Iden))));
        let i = Term::Take(Box::new(drop_m_lk));
        let pair_left_i = Term::Pair(Box::new(left), Box::new(i));
        let cond_dec_inc = cond_term(C::dec_index_spec(), C::inc_index_spec());
        let computed_i_prime = Term::Comp(Box::new(pair_left_i), Box::new(cond_dec_inc));
        let i_prime = Term::Drop(Box::new(Term::Drop(Box::new(Term::Drop(Box::new(Term::Iden))))));
        Term::Comp(
            Box::new(Term::Pair(Box::new(computed_i_prime), Box::new(i_prime))),
            Box::new(C::eq_index_spec()),
        )
    }

    /// Compare the supplied next index against the computed one.
    pub fn check_index() -> (t: Term)
        ensures
            t == Self::check_index_spec(),
    {
        let pair_q_b = Self::pair_q_b();
        let left_predicate = M::left();
        let left = Term::comp(pair_q_b, left_predicate);

        let iden_k = Term::iden();
        let drop_l_k = Term::drop(iden_k);
        let drop_m_lk = Term::drop(drop_l_k);
        let i = Term::take(drop_m_lk);
        let pair_left_i = Term::pair(left, i);

        let dec_index = C::dec_index();
        let inc_index = C::inc_index();
        let cond_dec_inc = Term::cond(dec_index, inc_index);
        let computed_i_prime = Term::comp(pair_left_i, cond_dec_inc);

        let i_prime = Term::drop(Term::drop(Term::drop(Term::iden())));
        let pair_computed_i_prime_i_prime = Term::pair(computed_i_prime, i_prime);
        let eq_index = C::eq_index();

        Term::comp(pair_computed_i_prime_i_prime, eq_index)
    }

    /// The term that compares the supplied next tape against the one
    /// computed by writing the transition relation's symbol at the
    /// current index.
    pub open spec fn check_tape_spec() -> Term {
        let b = Term::Comp(Box::new(Self::pair_q_b_spec()), Box::new(M::write_spec()));
        let pair_w_i = Term::Take(Box::new(Term::Drop(Box::new(Term::Iden))));
        let pair_b_pair_w_i = Term::Pair(Box::new(b), Box::new(pair_w_i));
        let computed_w_prime = Term::Comp(Box::new(pair_b_pair_w_i), Box::new(C::set_spec()));
        let w_prime = Term::Drop(Box::new(Term::Drop(Box::new(Term::Take(Box::new(Term::Iden))))));
        Term::Comp(
            Box::new(Term::Pair(Box::new(computed_w_prime), Box::new(w_prime))),
            Box::new(C::eq_tape_spec()),
        )
    }

    /// Compare the supplied next tape against the computed one.
    pub fn check_tape() -> (t: Term)
        ensures
            t == Self::check_tape_spec(),
    {
        let pair_q_b = Self::pair_q_b();
        let write = M::write();
        let b = Term::comp(pair_q_b, write);

        let iden_lk = Term::iden();
        let drop_m_lk = Term::drop(iden_lk);
        let pair_w_i = Term::take(drop_m_lk);
        let pair_b_pair_w_i = Term::pair(b, pair_w_i);

        let set = C::set();
        let computed_w_prime = Term::comp(pair_b_pair_w_i, set);

        let iden_l = Term::iden();
        let take_l_k = Term::take(iden_l);
        let drop_m_lk = Term::drop(take_l_k);
        let w_prime = Term::drop(drop_m_lk);

        let pair_computed_w_prime_w_prime = Term::pair(computed_w_prime, w_prime);
        let eq_tape = C::eq_tape();

        Term::comp(pair_computed_w_prime_w_prime, eq_tape)
    }

    /// The per-step predicate: the three checks — state, index, tape —
    /// each wrapped in an assertion with its own placeholder commitment
    /// and combined by pairing, so any single failing check aborts the
    /// whole step.
    pub open spec fn verify_step_spec() -> Term {
        let verify_state = assert_term(Self::check_state_spec(), state_failure_cmr());
        let verify_index = assert_term(Self::check_index_spec(), index_failure_cmr());
        let verify_state_index = Term::Pair(Box::new(verify_state), Box::new(verify_index));
        let verify_tape = assert_term(Self::check_tape_spec(), tape_failure_cmr());
        Term::Pair(Box::new(verify_state_index), Box::new(verify_tape))
    }

    /// Validate one transition between adjacent configurations.
    pub fn verify_step() -> (t: Term)
        ensures
            t == Self::verify_step_spec(),
    {
        let check_state = Self::check_state();
        let verify_state = Term::assertion(check_state, Cmr32::from_bytes([0u8; 32]));

        let check_index = Self::check_index();
        let verify_index = Term::assertion(check_index, Cmr32::from_bytes([1u8; 32]));
        let verify_state_index = Term::pair(verify_state, verify_index);

        let check_tape = Self::check_tape();
        let verify_tape = Term::assertion(check_tape, Cmr32::from_bytes([2u8; 32]));

        Term::pair(verify_state_index, verify_tape)
    }

    /// The first boundary predicate: the first configuration's state
    /// satisfies `initial`.
    pub open spec fn verify_first_spec() -> Term {
        let q = Term::Take(Box::new(Term::Take(Box::new(Term::Iden))));
        let check_first = Term::Comp(Box::new(q), Box::new(M::initial_spec()));
        assert_term(check_first, first_failure_cmr())
    }

    /// Validate that the first configuration's state is initial.
    pub fn verify_first() -> (t: Term)
        ensures
            t == Self::verify_first_spec(),
    {
        let iden_m = Term::iden();
        let take_m_lk = Term::take(iden_m);
        let q = Term::take(take_m_lk);

        let initial = M::initial();
        let check_first = Term::comp(q, initial);

        Term::assertion(check_first, Cmr32::from_bytes([3u8; 32]))
    }

    /// The last boundary predicate: the last configuration's state
    /// satisfies `accepting`.
    pub open spec fn verify_last_spec() -> Term {
        let q_prime = Term::Drop(Box::new(Term::Take(Box::new(Term::Iden))));
        let check_last = Term::Comp(Box::new(q_prime), Box::new(M::accepting_spec()));
        assert_term(check_last, last_failure_cmr())
    }

    /// Validate that the last configuration's state is accepting.
    pub fn verify_last() -> (t: Term)
        ensures
            t == Self::verify_last_spec(),
    {
        let iden_m = Term::iden();
        let take_m_lk = Term::take(iden_m);
        let q_prime = Term::drop(take_m_lk);

        let accepting = M::accepting();
        let check_last = Term::comp(q_prime, accepting);

        Term::assertion(check_last, Cmr32::from_bytes([4u8; 32]))
    }

    /// The first-step predicate: the first boundary check paired with the
    /// first transition check.
    pub open spec fn verify_first_step_spec() -> Term {
        Term::Pair(Box::new(Self::verify_first_spec()), Box::new(Self::verify_step_spec()))
    }

    /// The last-step predicate: the last boundary check paired with the
    /// last transition check.
    pub open spec fn verify_last_step_spec() -> Term {
        Term::Pair(Box::new(Self::verify_last_spec()), Box::new(Self::verify_step_spec()))
    }

    /// The carried pair after folding the first `i` configurations, for
    /// `i >= 2`: the pair of the first two witnesses, then one fold step
    /// per further configuration.  Each fold step introduces one fresh
    /// witness, re-validates the transition from the retained
    /// configuration, and drops the superseded one, so the carried state
    /// stays one configuration pair.
    pub open spec fn prefix_spec(i: int) -> Term
        decreases i,
    {
        if i <= 2 {
            Term::Pair(Box::new(Term::Witness), Box::new(Term::Witness))
        } else {
            let verify = if i - 1 == 2 {
                Self::verify_first_step_spec()
            } else {
                Self::verify_step_spec()
            };
            let verify_next_witness = Term::Comp(Box::new(verify), Box::new(Term::Witness));
            let drop_and_verify = Term::Pair(
                Box::new(Term::Drop(Box::new(Term::Iden))),
                Box::new(verify_next_witness),
            );
            Term::Comp(Box::new(Self::prefix_spec(i - 1)), Box::new(drop_and_verify))
        }
    }

    /// The complete verification program for a trace of `n` steps.
    pub open spec fn verify_computation_spec(n: int) -> Term {
        if n == 2 {
            Term::Comp(
                Box::new(Self::prefix_spec(2)),
                Box::new(
                    Term::Pair(
                        Box::new(Self::verify_first_step_spec()),
                        Box::new(Self::verify_last_spec()),
                    ),
                ),
            )
        } else {
            Term::Comp(Box::new(Self::prefix_spec(n)), Box::new(Self::verify_last_step_spec()))
        }
    }

    /// Return a program term that verifies that the Turing machine
    /// computes a computation of `n_steps` configurations, consumed as
    /// witnesses in trace order.  The program fails if the validation
    /// fails and does nothing otherwise.  Fewer than two steps are
    /// rejected before any term is built: a trace must contain at least
    /// an initial and an accepting configuration.
    pub fn verify_computation(n_steps: usize) -> (r: Result<Term, CompileConfigError>)
        ensures
            match r {
                Ok(t) => n_steps >= 2 && t == Self::verify_computation_spec(n_steps as int),
                Err(_) => n_steps < 2,
            },
    {
        if n_steps < 2 {
            return Err(CompileConfigError);
        }
        let witness_0 = Term::witness();
        let witness_1 = Term::witness();
        let first_witnesses = Term::pair(witness_0, witness_1);

        if n_steps == 2 {
            let verify_first_step = Term::pair(Self::verify_first(), Self::verify_step());
            let verify = Term::pair(verify_first_step, Self::verify_last());
            return Ok(Term::comp(first_witnesses, verify));
        }
        let mut verify_prefix = first_witnesses;
        let mut i: usize = 2;
        while i < n_steps
            invariant
                2 <= i <= n_steps,
                verify_prefix == Self::prefix_spec(i as int),
            decreases n_steps - i,
        {
            let next_witness = Term::witness();
            let verify = if i == 2 {
                Term::pair(Self::verify_first(), Self::verify_step())
            } else {
                Self::verify_step()
            };
            let verify_next_witness = Term::comp(verify, next_witness);
            let drop_and_verify = Term::pair(Term::drop(Term::iden()), verify_next_witness);

            verify_prefix = Term::comp(verify_prefix, drop_and_verify);
            i = i + 1;
        }
        let verify_last_step = Term::pair(Self::verify_last(), Self::verify_step());
        Ok(Term::comp(verify_prefix, verify_last_step))
    }

    /// Compiling the same machine, encoding and step count twice yields
    /// terms with identical top-level commitment: compilation is
    /// deterministic and referentially transparent.
    pub proof fn lemma_compile_deterministic(a: Term, b: Term, n: int)
        requires
            a == Self::verify_computation_spec(n),
            b == Self::verify_computation_spec(n),
        ensures
            cmr_spec(a) == cmr_spec(b),
    {
    }
}

/// A configuration of a machine with one-bit states: the state bit, then
/// the pair of tape and index.
pub open spec fn bit_config(q: bool, t: [u8; 32], i: [u8; 32]) -> Value {
    configuration_spec(Value::bit_spec(q), t, i)
}

/// One transition of the trivial machine is consistent between
/// configurations k and k + 1: the index is one-hot and not at its upper
/// boundary, the next state is the disjunction of the current state and
/// the read symbol, the next index is the current one moved forward, and
/// the next tape is the current one with the read symbol written back.
pub open spec fn trivial_step_ok(
    qs: Seq<bool>,
    ts: Seq<[u8; 32]>,
    is: Seq<[u8; 32]>,
    k: int,
) -> bool {
    &&& is_one_hot(is[k]@)
    &&& one_hot_pos(is[k]@) < 255
    &&& (qs[k] || read_symbol(ts[k], is[k])) == qs[k + 1]
    &&& one_hot_word(one_hot_pos(is[k]@) + 1) == is[k + 1]@
    &&& set256_sem(read_symbol(ts[k], is[k]), ts[k]@, is[k]@) == ts[k + 1]@
}

/// The symbol read from a tape at an index: whether masking the tape by
/// the index leaves a set bit.
pub open spec fn read_symbol(t: [u8; 32], i: [u8; 32]) -> bool {
    !is_zero_word(and_words(t@, i@))
}

impl Verifier<Computation256, Trivial> {
    /// Reading state and symbol from a pair of adjacent configurations.
    proof fn lemma_pair_q_b_eval(
        q0: bool,
        t0: [u8; 32],
        i0: [u8; 32],
        c1: Value,
        ws: Seq<Value>,
        p: int,
    )
        ensures
            eval_spec(
                Self::pair_q_b_spec(),
                Value::Prod(Box::new(bit_config(q0, t0, i0)), Box::new(c1)),
                ws,
                p,
            ) == Result::<Value, TuringError>::Ok(
                Value::Prod(
                    Box::new(Value::bit_spec(q0)),
                    Box::new(Value::bit_spec(read_symbol(t0, i0))),
                ),
            ),
    {
        reveal_with_fuel(eval_spec, 6);
        reveal_with_fuel(witness_count, 6);
        lemma_get256_eval(t0, i0, ws, p);
    }

    /// The state check of the trivial machine compares the supplied next
    /// state against the disjunction of the current state and the read
    /// symbol.
    proof fn lemma_check_state_eval(
        q0: bool,
        q1: bool,
        t0: [u8; 32],
        t1: [u8; 32],
        i0: [u8; 32],
        i1: [u8; 32],
        ws: Seq<Value>,
        p: int,
    )
        ensures
            eval_spec(
                Self::check_state_spec(),
                Value::Prod(
                    Box::new(bit_config(q0, t0, i0)),
                    Box::new(bit_config(q1, t1, i1)),
                ),
                ws,
                p,
            ) == Result::<Value, TuringError>::Ok(
                Value::bit_spec((q0 || read_symbol(t0, i0)) == q1),
            ),
    {
        reveal_with_fuel(eval_spec, 8);
        reveal_with_fuel(witness_count, 8);
        Self::lemma_pair_q_b_eval(q0, t0, i0, bit_config(q1, t1, i1), ws, p);
    }

    /// The index check of the trivial machine compares the supplied next
    /// index against the current one moved one position forward.
    proof fn lemma_check_index_eval(
        q0: bool,
        q1: bool,
        t0: [u8; 32],
        t1: [u8; 32],
        i0: [u8; 32],
        i1: [u8; 32],
        ws: Seq<Value>,
        p: int,
    )
        requires
            is_one_hot(i0@),
            one_hot_pos(i0@) < 255,
        ensures
            eval_spec(
                Self::check_index_spec(),
                Value::Prod(
                    Box::new(bit_config(q0, t0, i0)),
                    Box::new(bit_config(q1, t1, i1)),
                ),
                ws,
                p,
            ) == Result::<Value, TuringError>::Ok(
                Value::bit_spec(one_hot_word(one_hot_pos(i0@) + 1) == i1@),
            ),
    {
        reveal_with_fuel(eval_spec, 8);
        reveal_with_fuel(witness_count, 8);
        Self::lemma_pair_q_b_eval(q0, t0, i0, bit_config(q1, t1, i1), ws, p);
        let moved = one_hot_word(one_hot_pos(i0@) + 1);
        assert(right_shift_spec(i0@) == Result::<Seq<u8>, TuringError>::Ok(moved));
        lemma_word_with(i0, moved);
        let computed = word_with(i0, moved);
        if computed@ == i1@ {
            assert(computed =~= i1);
        }
        assert((computed == i1) == (moved == i1@));
    }

    /// The tape check of the trivial machine compares the supplied next
    /// tape against the current one with the read symbol written back at
    /// the current index.
    proof fn lemma_check_tape_eval(
        q0: bool,
        q1: bool,
        t0: [u8; 32],
        t1: [u8; 32],
        i0: [u8; 32],
        i1: [u8; 32],
        ws: Seq<Value>,
        p: int,
    )
        ensures
            eval_spec(
                Self::check_tape_spec(),
                Value::Prod(
                    Box::new(bit_config(q0, t0, i0)),
                    Box::new(bit_config(q1, t1, i1)),
                ),
                ws,
                p,
            ) == Result::<Value, TuringError>::Ok(
                Value::bit_spec(set256_sem(read_symbol(t0, i0), t0@, i0@) == t1@),
            ),
    {
        let v = Value::Prod(Box::new(bit_config(q0, t0, i0)), Box::new(bit_config(q1, t1, i1)));
        let b0 = read_symbol(t0, i0);
        let computed = word_with(t0, set256_sem(b0, t0@, i0@));
        Self::lemma_computed_tape_eval(q0, q1, t0, t1, i0, i1, ws, p);
        Self::lemma_supplied_tape_eval(q0, q1, t0, t1, i0, i1, ws, p + witness_count(
            Self::computed_w_prime_term(),
        ));
        lemma_word_with(t0, set256_sem(b0, t0@, i0@));
        if computed@ == t1@ {
            assert(computed =~= t1);
        }
        assert((computed == t1) == (set256_sem(b0, t0@, i0@) == t1@));
        assert(eval_spec(
            Term::Pair(
                Box::new(Self::computed_w_prime_term()),
                Box::new(Term::Drop(Box::new(Term::Drop(Box::new(Term::Take(Box::new(Term::Iden))))))),
            ),
            v,
            ws,
            p,
        ) == Result::<Value, TuringError>::Ok(
            Value::Prod(Box::new(Value::Word(computed)), Box::new(Value::Word(t1))),
        )) by {
            reveal_with_fuel(eval_spec, 2);
        }
        assert(eval_spec(Self::check_tape_spec(), v, ws, p) == Result::<Value, TuringError>::Ok(
            Value::bit_spec(set256_sem(b0, t0@, i0@) == t1@),
        )) by {
            reveal_with_fuel(eval_spec, 2);
        }
    }

    /// The term that computes the expected next tape inside the tape
    /// check.
    spec fn computed_w_prime_term() -> Term {
        let b = Term::Comp(Box::new(Self::pair_q_b_spec()), Box::new(<Trivial as Machine>::write_spec()));
        let pair_w_i = Term::Take(Box::new(Term::Drop(Box::new(Term::Iden))));
        Term::Comp(
            Box::new(Term::Pair(Box::new(b), Box::new(pair_w_i))),
            Box::new(set256_term()),
        )
    }

    /// Evaluating the computed-tape term writes the read symbol back.
    proof fn lemma_computed_tape_eval(
        q0: bool,
        q1: bool,
        t0: [u8; 32],
        t1: [u8; 32],
        i0: [u8; 32],
        i1: [u8; 32],
        ws: Seq<Value>,
        p: int,
    )
        ensures
            eval_spec(
                Self::computed_w_prime_term(),
                Value::Prod(
                    Box::new(bit_config(q0, t0, i0)),
                    Box::new(bit_config(q1, t1, i1)),
                ),
                ws,
                p,
            ) == Result::<Value, TuringError>::Ok(
                Value::Word(word_with(t0, set256_sem(read_symbol(t0, i0), t0@, i0@))),
            ),
    {
        let v = Value::Prod(Box::new(bit_config(q0, t0, i0)), Box::new(bit_config(q1, t1, i1)));
        let b0 = read_symbol(t0, i0);
        let qb = Value::Prod(Box::new(Value::bit_spec(q0)), Box::new(Value::bit_spec(b0)));
        let b_term = Term::Comp(
            Box::new(Self::pair_q_b_spec()),
            Box::new(<Trivial as Machine>::write_spec()),
        );
        let pair_w_i = Term::Take(Box::new(Term::Drop(Box::new(Term::Iden))));
        Self::lemma_pair_q_b_eval(q0, t0, i0, bit_config(q1, t1, i1), ws, p);
        assert(eval_spec(b_term, v, ws, p) == Result::<Value, TuringError>::Ok(
            Value::bit_spec(b0),
        )) by {
            reveal_with_fuel(eval_spec, 4);
        }
        assert(eval_spec(pair_w_i, v, ws, p + witness_count(b_term)) == Result::<
            Value,
            TuringError,
        >::Ok(Value::Prod(Box::new(Value::Word(t0)), Box::new(Value::Word(i0))))) by {
            reveal_with_fuel(eval_spec, 4);
        }
        assert(eval_spec(
            Term::Pair(Box::new(b_term), Box::new(pair_w_i)),
            v,
            ws,
            p,
        ) == Result::<Value, TuringError>::Ok(set_input_spec(b0, t0, i0))) by {
            reveal_with_fuel(eval_spec, 2);
        }
        lemma_set256_eval(
            b0,
            t0,
            i0,
            ws,
            p + witness_count(Term::Pair(Box::new(b_term), Box::new(pair_w_i))),
        );
        assert(eval_spec(Self::computed_w_prime_term(), v, ws, p) == Result::<
            Value,
            TuringError,
        >::Ok(Value::Word(word_with(t0, set256_sem(b0, t0@, i0@))))) by {
            reveal_with_fuel(eval_spec, 2);
        }
    }

    /// Evaluating the supplied-tape extraction reads the next
    /// configuration's tape.
    proof fn lemma_supplied_tape_eval(
        q0: bool,
        q1: bool,
        t0: [u8; 32],
        t1: [u8; 32],
        i0: [u8; 32],
        i1: [u8; 32],
        ws: Seq<Value>,
        p: int,
    )
        ensures
            eval_spec(
                Term::Drop(Box::new(Term::Drop(Box::new(Term::Take(Box::new(Term::Iden)))))),
                Value::Prod(
                    Box::new(bit_config(q0, t0, i0)),
                    Box::new(bit_config(q1, t1, i1)),
                ),
                ws,
                p,
            ) == Result::<Value, TuringError>::Ok(Value::Word(t1)),
    {
        reveal_with_fuel(eval_spec, 5);
    }

    /// The first boundary check of the trivial machine passes exactly
    /// when the first state is the initial one.
    proof fn lemma_verify_first_eval(
        q0: bool,
        t0: [u8; 32],
        i0: [u8; 32],
        c1: Value,
        ws: Seq<Value>,
        p: int,
    )
        ensures
            eval_spec(
                Self::verify_first_spec(),
                Value::Prod(Box::new(bit_config(q0, t0, i0)), Box::new(c1)),
                ws,
                p,
            ) == if !q0 {
                Result::<Value, TuringError>::Ok(Value::Unit)
            } else {
                Result::<Value, TuringError>::Err(
                    TuringError::AssertionFailure(first_failure_cmr()),
                )
            },
    {
        reveal_with_fuel(eval_spec, 8);
        reveal_with_fuel(witness_count, 8);
        let v = Value::Prod(Box::new(bit_config(q0, t0, i0)), Box::new(c1));
        let check_first = Term::Comp(
            Box::new(Term::Take(Box::new(Term::Take(Box::new(Term::Iden))))),
            Box::new(<Trivial as Machine>::initial_spec()),
        );
        assert(eval_spec(check_first, v, ws, p) == Result::<Value, TuringError>::Ok(
            Value::bit_spec(!q0),
        ));
        lemma_assertion_behavior(check_first, first_failure_cmr(), v, ws, p);
    }

    /// The last boundary check of the trivial machine passes exactly when
    /// the last state is the accepting one.
    proof fn lemma_verify_last_eval(
        q1: bool,
        t1: [u8; 32],
        i1: [u8; 32],
        c0: Value,
        ws: Seq<Value>,
        p: int,
    )
        ensures
            eval_spec(
                Self::verify_last_spec(),
                Value::Prod(Box::new(c0), Box::new(bit_config(q1, t1, i1))),
                ws,
                p,
            ) == if q1 {
                Result::<Value, TuringError>::Ok(Value::Unit)
            } else {
                Result::<Value, TuringError>::Err(
                    TuringError::AssertionFailure(last_failure_cmr()),
                )
            },
    {
        reveal_with_fuel(eval_spec, 8);
        reveal_with_fuel(witness_count, 8);
        let v = Value::Prod(Box::new(c0), Box::new(bit_config(q1, t1, i1)));
        let check_last = Term::Comp(
            Box::new(Term::Drop(Box::new(Term::Take(Box::new(Term::Iden))))),
            Box::new(<Trivial as Machine>::accepting_spec()),
        );
        assert(eval_spec(check_last, v, ws, p) == Result::<Value, TuringError>::Ok(
            Value::bit_spec(q1),
        ));
        lemma_assertion_behavior(check_last, last_failure_cmr(), v, ws, p);
    }

    /// The per-step predicate of the trivial machine passes exactly when
    /// all three checks do, and otherwise aborts with the placeholder of
    /// the first violated check, in the order state, index, tape.
    proof fn lemma_verify_step_eval(
        q0: bool,
        q1: bool,
        t0: [u8; 32],
        t1: [u8; 32],
        i0: [u8; 32],
        i1: [u8; 32],
        ws: Seq<Value>,
        p: int,
    )
        requires
            is_one_hot(i0@),
            one_hot_pos(i0@) < 255,
        ensures
            ({
                let v = Value::Prod(
                    Box::new(bit_config(q0, t0, i0)),
                    Box::new(bit_config(q1, t1, i1)),
                );
                let r = eval_spec(Self::verify_step_spec(), v, ws, p);
                let state_ok = (q0 || read_symbol(t0, i0)) == q1;
                let index_ok = one_hot_word(one_hot_pos(i0@) + 1) == i1@;
                let tape_ok = set256_sem(read_symbol(t0, i0), t0@, i0@) == t1@;
                &&& !state_ok ==> r == Result::<Value, TuringError>::Err(
                    TuringError::AssertionFailure(state_failure_cmr()),
                )
                &&& state_ok && !index_ok ==> r == Result::<Value, TuringError>::Err(
                    TuringError::AssertionFailure(index_failure_cmr()),
                )
                &&& state_ok && index_ok && !tape_ok ==> r == Result::<Value, TuringError>::Err(
                    TuringError::AssertionFailure(tape_failure_cmr()),
                )
                &&& state_ok && index_ok && tape_ok ==> r is Ok
            }),
    {
        reveal_with_fuel(eval_spec, 4);
        let v = Value::Prod(
            Box::new(bit_config(q0, t0, i0)),
            Box::new(bit_config(q1, t1, i1)),
        );
        let verify_state = assert_term(Self::check_state_spec(), state_failure_cmr());
        let verify_index = assert_term(Self::check_index_spec(), index_failure_cmr());
        let verify_state_index = Term::Pair(Box::new(verify_state), Box::new(verify_index));
        let verify_tape = assert_term(Self::check_tape_spec(), tape_failure_cmr());

        Self::lemma_check_state_eval(q0, q1, t0, t1, i0, i1, ws, p);
        lemma_assertion_behavior(Self::check_state_spec(), state_failure_cmr(), v, ws, p);

        let pi = p + witness_count(verify_state);
        Self::lemma_check_index_eval(q0, q1, t0, t1, i0, i1, ws, pi);
        lemma_assertion_behavior(Self::check_index_spec(), index_failure_cmr(), v, ws, pi);

        let pt = p + witness_count(verify_state_index);
        Self::lemma_check_tape_eval(q0, q1, t0, t1, i0, i1, ws, pt);
        lemma_assertion_behavior(Self::check_tape_spec(), tape_failure_cmr(), v, ws, pt);
    }

    /// The compiler's predicates hold no witness placeholders: all
    /// witnesses of a program come from the fold itself.
    proof fn lemma_checks_have_no_witness()
        ensures
            witness_count(Self::verify_step_spec()) == 0,
            witness_count(Self::verify_first_spec()) == 0,
            witness_count(Self::verify_last_spec()) == 0,
    {
        reveal_with_fuel(witness_count, 32);
    }

    /// The verdict of the two-step program on a trace of two
    /// configurations: the run succeeds exactly when the trace is valid —
    /// the first state initial, the transition consistent in state, index
    /// and tape, and the last state accepting — and an invalid trace
    /// aborts at the first violated checkpoint, in evaluation order,
    /// carrying that checkpoint's placeholder commitment.
    pub proof fn lemma_two_step_program_verdict(
        q0: bool,
        q1: bool,
        t0: [u8; 32],
        t1: [u8; 32],
        i0: [u8; 32],
        i1: [u8; 32],
    )
        requires
            is_one_hot(i0@),
            one_hot_pos(i0@) < 255,
        ensures
            ({
                let ws = seq![bit_config(q0, t0, i0), bit_config(q1, t1, i1)];
                let r = execute_spec(Self::verify_computation_spec(2), ws, Value::Unit);
                let first_ok = !q0;
                let state_ok = (q0 || read_symbol(t0, i0)) == q1;
                let index_ok = one_hot_word(one_hot_pos(i0@) + 1) == i1@;
                let tape_ok = set256_sem(read_symbol(t0, i0), t0@, i0@) == t1@;
                let last_ok = q1;
                &&& first_ok && state_ok && index_ok && tape_ok && last_ok ==> r is Ok
                &&& !first_ok ==> r == Result::<Value, TuringError>::Err(
                    TuringError::AssertionFailure(first_failure_cmr()),
                )
                &&& first_ok && !state_ok ==> r == Result::<Value, TuringError>::Err(
                    TuringError::AssertionFailure(state_failure_cmr()),
                )
                &&& first_ok && state_ok && !index_ok ==> r == Result::<Value, TuringError>::Err(
                    TuringError::AssertionFailure(index_failure_cmr()),
                )
                &&& first_ok && state_ok && index_ok && !tape_ok ==> r == Result::<
                    Value,
                    TuringError,
                >::Err(TuringError::AssertionFailure(tape_failure_cmr()))
                &&& first_ok && state_ok && index_ok && tape_ok && !last_ok ==> r == Result::<
                    Value,
                    TuringError,
                >::Err(TuringError::AssertionFailure(last_failure_cmr()))
            }),
    {
        let c0 = bit_config(q0, t0, i0);
        let c1 = bit_config(q1, t1, i1);
        let ws = seq![c0, c1];
        let v = Value::Prod(Box::new(c0), Box::new(c1));
        let vf = Self::verify_first_spec();
        let vs = Self::verify_step_spec();
        let vl = Self::verify_last_spec();
        let first_step = Term::Pair(Box::new(vf), Box::new(vs));
        let verify = Term::Pair(Box::new(first_step), Box::new(vl));
        let prefix = Self::prefix_spec(2);
        let prog = Self::verify_computation_spec(2);
        Self::lemma_checks_have_no_witness();
        assert(prog == Term::Comp(Box::new(prefix), Box::new(verify)));
        assert(witness_count(prog) == 2) by {
            reveal_with_fuel(witness_count, 8);
        }
        assert(eval_spec(prefix, Value::Unit, ws, 0) == Result::<Value, TuringError>::Ok(v)) by {
            reveal_with_fuel(eval_spec, 4);
        }
        let pv: int = witness_count(prefix) as int;
        Self::lemma_verify_first_eval(q0, t0, i0, c1, ws, pv);
        Self::lemma_verify_step_eval(q0, q1, t0, t1, i0, i1, ws, pv + witness_count(vf) as int);
        Self::lemma_verify_last_eval(q1, t1, i1, c0, ws, pv + witness_count(first_step) as int);
        assert(execute_spec(prog, ws, Value::Unit) == eval_spec(prog, Value::Unit, ws, 0));
        assert(eval_spec(prog, Value::Unit, ws, 0) == eval_spec(verify, v, ws, pv)) by {
            reveal_with_fuel(eval_spec, 2);
        }
        assert(eval_spec(verify, v, ws, pv) == match eval_spec(first_step, v, ws, pv) {
            Ok(a) => match eval_spec(vl, v, ws, pv + witness_count(first_step) as int) {
                Ok(b) => Result::<Value, TuringError>::Ok(
                    Value::Prod(Box::new(a), Box::new(b)),
                ),
                Err(e) => Err(e),
            },
            Err(e) => Err(e),
        }) by {
            reveal_with_fuel(eval_spec, 2);
        }
        assert(eval_spec(first_step, v, ws, pv) == match eval_spec(vf, v, ws, pv) {
            Ok(a) => match eval_spec(vs, v, ws, pv + witness_count(vf) as int) {
                Ok(b) => Result::<Value, TuringError>::Ok(
                    Value::Prod(Box::new(a), Box::new(b)),
                ),
                Err(e) => Err(e),
            },
            Err(e) => Err(e),
        }) by {
            reveal_with_fuel(eval_spec, 2);
        }
    }

    /// The carried pair holds all witnesses introduced so far: one per
    /// configuration consumed by the fold.
    proof fn lemma_prefix_witness_count(i: int)
        requires
            i >= 2,
        ensures
            witness_count(Self::prefix_spec(i)) == i,
        decreases i,
    {
        reveal_with_fuel(witness_count, 8);
        Self::lemma_checks_have_no_witness();
        if i > 2 {
            Self::lemma_prefix_witness_count(i - 1);
        }
    }

    /// Folding a valid prefix of the trace succeeds and carries exactly
    /// the last two configurations consumed so far.
    proof fn lemma_prefix_accepts(
        ws: Seq<Value>,
        qs: Seq<bool>,
        ts: Seq<[u8; 32]>,
        is: Seq<[u8; 32]>,
        i: int,
    )
        requires
            2 <= i <= ws.len(),
            qs.len() == ws.len(),
            ts.len() == ws.len(),
            is.len() == ws.len(),
            forall|k: int| 0 <= k < ws.len() ==> ws[k] == bit_config(qs[k], ts[k], is[k]),
            !qs[0],
            forall|k: int| 0 <= k < i - 1 ==> trivial_step_ok(qs, ts, is, k),
        ensures
            eval_spec(Self::prefix_spec(i), Value::Unit, ws, 0) == Result::<
                Value,
                TuringError,
            >::Ok(Value::Prod(Box::new(ws[i - 2]), Box::new(ws[i - 1]))),
        decreases i,
    {
        if i == 2 {
            assert(eval_spec(Self::prefix_spec(2), Value::Unit, ws, 0) == Result::<
                Value,
                TuringError,
            >::Ok(Value::Prod(Box::new(ws[0]), Box::new(ws[1])))) by {
                reveal_with_fuel(eval_spec, 3);
            }
        } else {
            Self::lemma_prefix_accepts(ws, qs, ts, is, i - 1);
            Self::lemma_prefix_witness_count(i - 1);
            Self::lemma_checks_have_no_witness();
            let v = Value::Prod(Box::new(ws[i - 3]), Box::new(ws[i - 2]));
            assert(ws[i - 3] == bit_config(qs[i - 3], ts[i - 3], is[i - 3]));
            assert(ws[i - 2] == bit_config(qs[i - 2], ts[i - 2], is[i - 2]));
            assert(trivial_step_ok(qs, ts, is, i - 3));
            let p1: int = witness_count(Self::prefix_spec(i - 1)) as int;
            let verify = if i - 1 == 2 {
                Self::verify_first_step_spec()
            } else {
                Self::verify_step_spec()
            };
            Self::lemma_verify_step_eval(
                qs[i - 3],
                qs[i - 2],
                ts[i - 3],
                ts[i - 2],
                is[i - 3],
                is[i - 2],
                ws,
                p1 + if i - 1 == 2 {
                    witness_count(Self::verify_first_spec()) as int
                } else {
                    0
                },
            );
            if i - 1 == 2 {
                Self::lemma_verify_first_eval(qs[0], ts[0], is[0], ws[1], ws, p1);
                assert(eval_spec(verify, v, ws, p1) is Ok) by {
                    reveal_with_fuel(eval_spec, 2);
                }
            } else {
                assert(eval_spec(verify, v, ws, p1) is Ok);
            }
            assert(eval_spec(
                Term::Drop(Box::new(Term::Iden)),
                v,
                ws,
                p1,
            ) == Result::<Value, TuringError>::Ok(ws[i - 2])) by {
                reveal_with_fuel(eval_spec, 3);
            }
            assert(witness_count(verify) == 0) by {
                reveal_with_fuel(witness_count, 3);
            }
            assert(0 <= p1 < ws.len());
            assert(eval_spec(Self::prefix_spec(i), Value::Unit, ws, 0) == Result::<
                Value,
                TuringError,
            >::Ok(Value::Prod(Box::new(ws[i - 2]), Box::new(ws[i - 1])))) by {
                reveal_with_fuel(eval_spec, 4);
                reveal_with_fuel(witness_count, 3);
            }
        }
    }

    /// A valid trace of any length is accepted: when the first state is
    /// initial, the last state is accepting, and every adjacent pair of
    /// configurations is a consistent transition of the trivial machine,
    /// the compiled program runs to completion with no assertion failure.
    pub proof fn lemma_valid_trace_accepted(
        ws: Seq<Value>,
        qs: Seq<bool>,
        ts: Seq<[u8; 32]>,
        is: Seq<[u8; 32]>,
    )
        requires
            ws.len() >= 2,
            qs.len() == ws.len(),
            ts.len() == ws.len(),
            is.len() == ws.len(),
            forall|k: int| 0 <= k < ws.len() ==> ws[k] == bit_config(qs[k], ts[k], is[k]),
            !qs[0],
            qs[ws.len() - 1],
            forall|k: int| 0 <= k < ws.len() - 1 ==> trivial_step_ok(qs, ts, is, k),
        ensures
            execute_spec(Self::verify_computation_spec(ws.len() as int), ws, Value::Unit) is Ok,
    {
        let n = ws.len() as int;
        if n == 2 {
            assert(trivial_step_ok(qs, ts, is, 0));
            Self::lemma_two_step_program_verdict(qs[0], qs[1], ts[0], ts[1], is[0], is[1]);
            assert(ws =~= seq![
                bit_config(qs[0], ts[0], is[0]),
                bit_config(qs[1], ts[1], is[1]),
            ]);
        } else {
            Self::lemma_prefix_accepts(ws, qs, ts, is, n);
            Self::lemma_prefix_witness_count(n);
            Self::lemma_checks_have_no_witness();
            let prog = Self::verify_computation_spec(n);
            let vl = Self::verify_last_spec();
            let vs = Self::verify_step_spec();
            let last_step = Term::Pair(Box::new(vl), Box::new(vs));
            assert(prog == Term::Comp(Box::new(Self::prefix_spec(n)), Box::new(last_step)));
            assert(witness_count(prog) == n) by {
                reveal_with_fuel(witness_count, 4);
            }
            let v = Value::Prod(Box::new(ws[n - 2]), Box::new(ws[n - 1]));
            assert(ws[n - 2] == bit_config(qs[n - 2], ts[n - 2], is[n - 2]));
            assert(ws[n - 1] == bit_config(qs[n - 1], ts[n - 1], is[n - 1]));
            assert(trivial_step_ok(qs, ts, is, n - 2));
            let pl: int = witness_count(Self::prefix_spec(n)) as int;
            Self::lemma_verify_last_eval(qs[n - 1], ts[n - 1], is[n - 1], ws[n - 2], ws, pl);
            Self::lemma_verify_step_eval(
                qs[n - 2],
                qs[n - 1],
                ts[n - 2],
                ts[n - 1],
                is[n - 2],
                is[n - 1],
                ws,
                pl + witness_count(vl) as int,
            );
            assert(eval_spec(last_step, v, ws, pl) is Ok) by {
                reveal_with_fuel(eval_spec, 2);
            }
            assert(eval_spec(prog, Value::Unit, ws, 0) is Ok) by {
                reveal_with_fuel(eval_spec, 2);
            }
        }
    }
}

} // verus!
