//! Small shared building blocks: bit-string equality terms, witness
//! assembly for whole computations, and base64 program encoding.

use vstd::prelude::*;

use base64::Engine;

use crate::encoding::encode_term;
use crate::encoding::encode_term_spec;
use crate::term::bit_false_term;
use crate::term::cond_term;
use crate::term::not_term;
use crate::term::Term;
use crate::value::Value;

verus! {

/// The term that compares two bits for equality.
///
/// `eq_2: 2 × 2 → 2`
pub open spec fn eq_2_term() -> Term {
    cond_term(Term::Iden, not_term(Term::Iden))
}

/// Check equality of bits.
///
/// `eq_2: 2 × 2 → 2`
pub fn eq_2() -> (t: Term)
    ensures
        t == eq_2_term(),
{
    // 2 → 2
    let iden_2 = Term::iden();
    // 2 → 2
    let not_2 = Term::not(Term::iden());
    // 2 × 2 → 2
    Term::cond(iden_2, not_2)
}

/// The term that compares two two-bit strings for equality.
///
/// `eq_22: 2^2 × 2^2 → 2`
pub open spec fn eq_22_term() -> Term {
    let take_2_2 = Term::Take(Box::new(Term::Iden));
    let drop_2_2 = Term::Drop(Box::new(Term::Iden));
    let first_first = Term::Take(Box::new(take_2_2));
    let second_first = Term::Drop(Box::new(take_2_2));
    let first_second = Term::Take(Box::new(drop_2_2));
    let second_second = Term::Drop(Box::new(drop_2_2));
    let first_bit = Term::Pair(Box::new(first_first), Box::new(second_first));
    let first_bit_equal = Term::Comp(Box::new(first_bit), Box::new(eq_2_term()));
    let second_bit = Term::Pair(Box::new(first_second), Box::new(second_second));
    let first_equal_and_second = Term::Pair(Box::new(first_bit_equal), Box::new(second_bit));
    let cond_second_equal_or_false = cond_term(eq_2_term(), bit_false_term());
    Term::Comp(Box::new(first_equal_and_second), Box::new(cond_second_equal_or_false))
}

/// Check equality of two-bit strings.
///
/// `eq_22: 2^2 × 2^2 → 2`
pub fn eq_22() -> (t: Term)
    ensures
        t == eq_22_term(),
{
    // 2 → 2
    let iden_2 = Term::iden();
    // 2 × 2 → 2
    let take_2_2 = Term::take(iden_2);
    // 2 × 2 → 2
    let drop_2_2 = Term::drop(Term::iden());
    // 2^2 × 2^2 → 2
    let first_first = Term::take(Term::take(Term::iden()));
    // 2^2 × 2^2 → 2
    let second_first = Term::drop(take_2_2);
    // 2^2 × 2^2 → 2
    let first_second = Term::take(drop_2_2);
    // 2^2 × 2^2 → 2
    let second_second = Term::drop(Term::drop(Term::iden()));

    // 2^2 × 2^2 → 2 × 2
    let first_bit = Term::pair(first_first, second_first);
    // 2^2 × 2^2 → 2
    let first_bit_equal = Term::comp(first_bit, eq_2());
    // 2^2 × 2^2 → 2 × 2
    let second_bit = Term::pair(first_second, second_second);
    // 2^2 × 2^2 → 2 × 2^2
    let first_equal_and_second = Term::pair(first_bit_equal, second_bit);

    // 2 × 2^2 → 2
    let cond_second_equal_or_false = Term::cond(eq_2(), Term::bit_false());

    // 2^2 × 2^2 → 2
    Term::comp(first_equal_and_second, cond_second_equal_or_false)
}

/// The configuration value built from one state, tape and index: the
/// state paired with the pair of tape and index.
pub open spec fn configuration_spec(state: Value, tape: [u8; 32], index: [u8; 32]) -> Value {
    Value::Prod(
        Box::new(state),
        Box::new(Value::Prod(Box::new(Value::Word(tape)), Box::new(Value::Word(index)))),
    )
}

/// Create a computation from states, tapes and indices, as witness values
/// for a program commitment.  Sequences of unequal length are zipped down
/// to the shortest.
pub fn computation256_of(
    states: &Vec<Value>,
    tapes: &Vec<[u8; 32]>,
    indices: &Vec<[u8; 32]>,
) -> (ws: Vec<Value>)
    ensures
        ws@.len() == vstd::math::min(
            states@.len() as int,
            vstd::math::min(tapes@.len() as int, indices@.len() as int),
        ),
        forall|k: int|
            0 <= k < ws@.len() ==> ws@[k] == configuration_spec(
                states@[k],
                tapes@[k],
                indices@[k],
            ),
{
    let mut n = states.len();
    if tapes.len() < n {
        n = tapes.len();
    }
    if indices.len() < n {
        n = indices.len();
    }
    let mut ws: Vec<Value> = Vec::new();
    let mut k: usize = 0;
    while k < n
        invariant
            k <= n,
            n <= states@.len(),
            n <= tapes@.len(),
            n <= indices@.len(),
            ws@.len() == k,
            forall|j: int|
                0 <= j < k ==> ws@[j] == configuration_spec(states@[j], tapes@[j], indices@[j]),
        decreases n - k,
    {
        let state = states[k].duplicate();
        let tape = Value::u256_from_slice(&tapes[k]);
        let index = Value::u256_from_slice(&indices[k]);
        ws.push(Value::prod(state, Value::prod(tape, index)));
        k = k + 1;
    }
    ws
}

/// The standard base64 encoding of a byte string: four output characters
/// for every three input bytes, with `=` padding.
pub uninterp spec fn base64_of(data: Seq<u8>) -> Seq<char>;

/// Relies on base64::engine::general_purpose::STANDARD.encode: the output
/// is a function of the input bytes alone, four characters per three-byte
/// group of the padded input.
#[verifier::external_body]
fn base64_ext(data: &Vec<u8>) -> (s: String)
    ensures
        s@ == base64_of(data@),
        s@.len() == 4 * ((data@.len() + 2) / 3),
{
    base64::engine::general_purpose::STANDARD.encode(data.as_slice())
}

/// Encode the given program term as a base64 string of its canonical
/// byte encoding.
pub fn encode_base64(t: &Term) -> (s: String)
    ensures
        s@ == base64_of(encode_term_spec(*t)),
{
    let mut bytes: Vec<u8> = Vec::new();
    encode_term(t, &mut bytes);
    base64_ext(&bytes)
}

} // verus!
