//! The default configuration encoding: 256-bit tapes and one-hot indices.

use vstd::prelude::*;

use crate::computation::Computation;
use crate::eval::eval_spec;
use crate::jet::application::and_words;
use crate::jet::application::is_one_hot;
use crate::jet::application::is_zero_word;
use crate::jet::application::lemma_and_clear_mask;
use crate::jet::application::lemma_and_or_mask;
use crate::jet::application::lemma_one_hot_not_zero;
use crate::jet::application::lemma_shift_inverses;
use crate::jet::application::left_shift_spec;
use crate::jet::application::not_word;
use crate::jet::application::one_hot_word;
use crate::jet::application::or_words;
use crate::jet::application::right_shift_spec;
use crate::jet::application::TuringError;
use crate::jet::turing::TuringJetName;
use crate::term::cond_term;
use crate::term::not_term;
use crate::term::Term;
use crate::value::lemma_word_with;
use crate::value::Value;

verus! {

broadcast use vstd::array::group_array_axioms;

/// Computation _(of arbitrary length)_ with 256-bit tapes and 256-bit
/// one-hot indices.
///
/// Tapes are encoded as `l = 256`-bit strings.  Indices are encoded as
/// `k = 256`-bit strings holding exactly one set bit, so `get` and `set`
/// reduce to masked and/or/complement compositions and `inc`/`dec` to
/// the native one-bit shifts.
pub struct Computation256 {}

/// The term of `Computation256::get`: the symbol at the index is set iff
/// masking the tape by the index is not all zero.
pub open spec fn get256_term() -> Term {
    not_term(
        Term::Comp(
            Box::new(Term::Jet(TuringJetName::And256)),
            Box::new(Term::Jet(TuringJetName::IsZero256)),
        ),
    )
}

/// The term of `Computation256::set`: writing one sets the indexed bit by
/// disjunction, writing zero clears it by conjunction with the index's
/// complement.
pub open spec fn set256_term() -> Term {
    let w = Term::Take(Box::new(Term::Iden));
    let i = Term::Drop(Box::new(Term::Iden));
    let pair_w_i = Term::Pair(Box::new(w), Box::new(i));
    let w_or_i = Term::Comp(Box::new(pair_w_i), Box::new(Term::Jet(TuringJetName::Or256)));
    let complement_i = Term::Comp(
        Box::new(Term::Drop(Box::new(Term::Iden))),
        Box::new(Term::Jet(TuringJetName::Complement256)),
    );
    let pair_w_complement_i = Term::Pair(
        Box::new(Term::Take(Box::new(Term::Iden))),
        Box::new(complement_i),
    );
    let w_and_complement_i = Term::Comp(
        Box::new(pair_w_complement_i),
        Box::new(Term::Jet(TuringJetName::And256)),
    );
    cond_term(w_or_i, w_and_complement_i)
}

impl Computation for Computation256 {
    open spec fn get_spec() -> Term {
        get256_term()
    }

    /// `get: 2^256 × 2^256 → 2`
    fn get() -> (t: Term) {
        let w_and_i = Term::jet(TuringJetName::And256);
        let is_zero256 = Term::jet(TuringJetName::IsZero256);
        let w_and_i_is_zero = Term::comp(w_and_i, is_zero256);

        Term::not(w_and_i_is_zero)
    }

    open spec fn set_spec() -> Term {
        set256_term()
    }

    /// `set: 2 × (2^256 × 2^256) → 2^256`
    fn set() -> (t: Term) {
        let w = Term::take(Term::iden());
        let i = Term::drop(Term::iden());

        let pair_w_i = Term::pair(Term::take(Term::iden()), Term::drop(Term::iden()));
        let or_256 = Term::jet(TuringJetName::Or256);
        let w_or_i = Term::comp(pair_w_i, or_256);

        let complement256 = Term::jet(TuringJetName::Complement256);
        let complement_i = Term::comp(i, complement256);
        let pair_w_complement_i = Term::pair(w, complement_i);
        let and_256 = Term::jet(TuringJetName::And256);
        let w_and_complement_i = Term::comp(pair_w_complement_i, and_256);

        Term::cond(w_or_i, w_and_complement_i)
    }

    open spec fn eq_tape_spec() -> Term {
        Term::Jet(TuringJetName::Eq256)
    }

    /// `eq_tape: 2^256 × 2^256 → 2`
    fn eq_tape() -> (t: Term) {
        Term::jet(TuringJetName::Eq256)
    }

    open spec fn eq_index_spec() -> Term {
        Term::Jet(TuringJetName::Eq256)
    }

    /// `eq_index: 2^256 × 2^256 → 2`
    fn eq_index() -> (t: Term) {
        Term::jet(TuringJetName::Eq256)
    }

    open spec fn inc_index_spec() -> Term {
        Term::Jet(TuringJetName::RightShift256)
    }

    /// `inc_index: 2^256 → 2^256`
    fn inc_index() -> (t: Term) {
        Term::jet(TuringJetName::RightShift256)
    }

    open spec fn dec_index_spec() -> Term {
        Term::Jet(TuringJetName::LeftShift256)
    }

    /// `dec_index: 2^256 → 2^256`
    fn dec_index() -> (t: Term) {
        Term::jet(TuringJetName::LeftShift256)
    }
}

/// The configuration value handed to the set term: the symbol, then the
/// pair of tape and index.
pub open spec fn set_input_spec(b: bool, w: [u8; 32], i: [u8; 32]) -> Value {
    Value::Prod(
        Box::new(Value::bit_spec(b)),
        Box::new(Value::Prod(Box::new(Value::Word(w)), Box::new(Value::Word(i)))),
    )
}

/// The tape that `set` writes: setting the indexed bit by disjunction
/// when the symbol is one, clearing it by conjunction with the index's
/// complement when it is zero.
pub open spec fn set256_sem(b: bool, w: Seq<u8>, i: Seq<u8>) -> Seq<u8> {
    if b {
        or_words(w, i)
    } else {
        and_words(w, not_word(i))
    }
}

/// Evaluating the set term replaces exactly the addressed symbol.
pub proof fn lemma_set256_eval(b: bool, w: [u8; 32], i: [u8; 32], ws: Seq<Value>, p: int)
    ensures
        eval_spec(set256_term(), set_input_spec(b, w, i), ws, p) == Result::<
            Value,
            TuringError,
        >::Ok(Value::Word(crate::value::word_with(w, set256_sem(b, w@, i@)))),
{
    reveal_with_fuel(eval_spec, 16);
    reveal_with_fuel(crate::term::witness_count, 16);
    lemma_word_with(w, or_words(w@, i@));
    lemma_word_with(i, not_word(i@));
    lemma_word_with(w, and_words(w@, not_word(i@)));
    if !b {
        let compl = crate::value::word_with(i, not_word(i@));
        assert(and_words(w@, compl@) == and_words(w@, not_word(i@)));
    }
}

/// Evaluating the get term reads whether masking the tape by the index
/// leaves a set bit.
pub proof fn lemma_get256_eval(w: [u8; 32], i: [u8; 32], ws: Seq<Value>, p: int)
    ensures
        eval_spec(
            get256_term(),
            Value::Prod(Box::new(Value::Word(w)), Box::new(Value::Word(i))),
            ws,
            p,
        ) == Result::<Value, TuringError>::Ok(
            Value::bit_spec(!is_zero_word(and_words(w@, i@))),
        ),
{
    reveal_with_fuel(eval_spec, 16);
    reveal_with_fuel(crate::term::witness_count, 16);
    lemma_word_with(w, and_words(w@, i@));
}

/// For all symbols b, tapes w and one-hot indices i: getting the symbol
/// at i from the tape produced by setting position i to b yields exactly
/// b.
pub proof fn lemma_get_after_set(b: bool, w: [u8; 32], i: [u8; 32], ws: Seq<Value>, p: int)
    requires
        is_one_hot(i@),
    ensures
        ({
            let set_r = eval_spec(set256_term(), set_input_spec(b, w, i), ws, p);
            &&& set_r matches Ok(w2)
            &&& eval_spec(
                get256_term(),
                Value::Prod(Box::new(w2), Box::new(Value::Word(i))),
                ws,
                p,
            ) == Result::<Value, TuringError>::Ok(Value::bit_spec(b))
        }),
{
    lemma_set256_eval(b, w, i, ws, p);
    lemma_word_with(w, set256_sem(b, w@, i@));
    let set_r = eval_spec(set256_term(), set_input_spec(b, w, i), ws, p);
    if let Ok(Value::Word(w2)) = set_r {
        lemma_get256_eval(w2, i, ws, p);
        if b {
            lemma_and_or_mask(w@, i@);
            lemma_one_hot_not_zero(i@);
            assert(and_words(w2@, i@) == i@);
        } else {
            lemma_and_clear_mask(w@, i@);
        }
    }
}

/// For all tapes w and one-hot indices i: setting position i to the very
/// symbol read there leaves the tape unchanged.
pub proof fn lemma_set_after_get(w: [u8; 32], i: [u8; 32], ws: Seq<Value>, p: int)
    requires
        is_one_hot(i@),
    ensures
        ({
            let get_r = eval_spec(
                get256_term(),
                Value::Prod(Box::new(Value::Word(w)), Box::new(Value::Word(i))),
                ws,
                p,
            );
            &&& get_r matches Ok(b)
            &&& b == Value::bit_spec(!is_zero_word(and_words(w@, i@)))
            &&& eval_spec(
                set256_term(),
                set_input_spec(!is_zero_word(and_words(w@, i@)), w, i),
                ws,
                p,
            ) == Result::<Value, TuringError>::Ok(Value::Word(w))
        }),
{
    lemma_get256_eval(w, i, ws, p);
    let b = !is_zero_word(and_words(w@, i@));
    lemma_set256_eval(b, w, i, ws, p);
    lemma_word_with(w, set256_sem(b, w@, i@));
    let k = crate::jet::application::one_hot_pos(i@);
    assert(0 <= k < 256 && i@ == one_hot_word(k));
    crate::jet::application::lemma_mask_write_back(w@, k);
    if let Ok(Value::Word(w2)) = eval_spec(set256_term(), set_input_spec(b, w, i), ws, p) {
        assert(w2@ == w@);
        assert(w2 =~= w);
    }
}

/// For the one-hot configuration encoding, moving the index forward and
/// then backward (or backward and then forward) restores it, except at
/// the two domain boundaries, where the move signals a domain error
/// rather than wrapping silently.
pub proof fn lemma_inc_dec_index_inverse(i: [u8; 32], ws: Seq<Value>, p: int)
    requires
        is_one_hot(i@),
    ensures
        ({
            let inc = eval_spec(Computation256::inc_index_spec(), Value::Word(i), ws, p);
            &&& (inc matches Ok(v) ==> eval_spec(Computation256::dec_index_spec(), v, ws, p)
                == Result::<Value, TuringError>::Ok(Value::Word(i)))
            &&& (inc is Err <==> i@ == one_hot_word(255))
            &&& (inc matches Err(e) ==> e is DomainError)
        }),
        ({
            let dec = eval_spec(Computation256::dec_index_spec(), Value::Word(i), ws, p);
            &&& (dec matches Ok(v) ==> eval_spec(Computation256::inc_index_spec(), v, ws, p)
                == Result::<Value, TuringError>::Ok(Value::Word(i)))
            &&& (dec is Err <==> i@ == one_hot_word(0))
            &&& (dec matches Err(e) ==> e is DomainError)
        }),
{
    reveal_with_fuel(eval_spec, 4);
    lemma_shift_inverses(i@);
    if let Ok(s) = right_shift_spec(i@) {
        lemma_word_with(i, s);
        let w2 = crate::value::word_with(i, s);
        lemma_shift_inverses(w2@);
        if let Ok(s2) = left_shift_spec(w2@) {
            lemma_word_with(w2, s2);
            assert(crate::value::word_with(w2, s2) =~= i);
        }
    }
    if let Ok(s) = left_shift_spec(i@) {
        lemma_word_with(i, s);
        let w2 = crate::value::word_with(i, s);
        lemma_shift_inverses(w2@);
        if let Ok(s2) = right_shift_spec(w2@) {
            lemma_word_with(w2, s2);
            assert(crate::value::word_with(w2, s2) =~= i);
        }
    }
}

} // verus!
