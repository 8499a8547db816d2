//! Execution semantics of the Turing jet family.
//!
//! Each native operation is a pure function of its input bits, total over
//! its declared domain.  The one-hot shift operations signal a domain
//! error on any input that is not exactly a one-hot word, or whose set
//! bit would be moved past the end of the word.

use vstd::prelude::*;

use crate::cmr::Cmr32;
use crate::encoding::ParseError;
use crate::jet::turing::jet_code_spec;
use crate::jet::turing::TuringJetName;
use crate::value::eq_word;
use crate::value::lemma_word_with;
use crate::value::word_with;
use crate::value::Value;

verus! {

broadcast use vstd::array::group_array_axioms;

/// Marker for the Turing jet family: the dispatch surface that decodes,
/// encodes and executes its native operations.
pub struct Turing;

/// An error raised while running a verification program.
#[derive(Clone, Copy, Debug)]
pub enum TuringError {
    /// A per-step or boundary assertion evaluated false; carries the
    /// placeholder commitment of the pruned branch, so the failing
    /// checkpoint can be distinguished.
    AssertionFailure(Cmr32),
    /// A native operation was applied outside its declared domain.
    DomainError,
    /// A value did not have the shape its consumer required.
    TypeError,
}

/// The byte with exactly the bit at position `m` set, counting from the
/// most significant bit.
pub open spec fn one_hot_byte(m: int) -> u8 {
    if m == 0 {
        0x80
    } else if m == 1 {
        0x40
    } else if m == 2 {
        0x20
    } else if m == 3 {
        0x10
    } else if m == 4 {
        0x08
    } else if m == 5 {
        0x04
    } else if m == 6 {
        0x02
    } else if m == 7 {
        0x01
    } else {
        0
    }
}

/// The 32-byte word with exactly the bit at position `k` set, counting
/// from the most significant bit of the first byte.
pub open spec fn one_hot_word(k: int) -> Seq<u8> {
    Seq::new(32, |i: int| if i == k / 8 { one_hot_byte(k % 8) } else { 0 })
}

/// Whether a word has exactly one set bit.
pub open spec fn is_one_hot(w: Seq<u8>) -> bool {
    exists|k: int| 0 <= k < 256 && w == #[trigger] one_hot_word(k)
}

/// The position of the single set bit of a one-hot word.
pub open spec fn one_hot_pos(w: Seq<u8>) -> int {
    choose|k: int| 0 <= k < 256 && w == #[trigger] one_hot_word(k)
}

/// Two distinct positions give distinct one-hot words.
pub proof fn lemma_one_hot_word_injective(k1: int, k2: int)
    requires
        0 <= k1 < 256,
        0 <= k2 < 256,
        one_hot_word(k1) == one_hot_word(k2),
    ensures
        k1 == k2,
{
    assert(one_hot_word(k1)[k1 / 8] == one_hot_byte(k1 % 8));
    assert(one_hot_word(k2)[k2 / 8] == one_hot_byte(k2 % 8));
    assert(one_hot_byte(k1 % 8) != 0);
    assert(one_hot_byte(k2 % 8) != 0);
    assert(k1 / 8 == k2 / 8);
    assert(one_hot_byte(k1 % 8) == one_hot_byte(k2 % 8));
    assert(k1 % 8 == k2 % 8);
}

/// The byte with exactly the bit at `index` set, counting from the most
/// significant bit.
pub fn one_hot_of(index: usize) -> (r: u8)
    requires
        index < 8,
    ensures
        r == one_hot_byte(index as int),
{
    match index {
        0 => 0b10000000,
        1 => 0b01000000,
        2 => 0b00100000,
        3 => 0b00010000,
        4 => 0b00001000,
        5 => 0b00000100,
        6 => 0b00000010,
        _ => 0b00000001,
    }
}

/// The bit position set in a one-hot byte, or nothing if the byte is not
/// one-hot.
pub fn one_hot_get_index(byte: u8) -> (r: Option<usize>)
    ensures
        match r {
            Some(i) => i < 8 && byte == one_hot_byte(i as int),
            None => forall|m: int| 0 <= m < 8 ==> byte != one_hot_byte(m),
        },
{
    match byte {
        0b10000000 => Some(0),
        0b01000000 => Some(1),
        0b00100000 => Some(2),
        0b00010000 => Some(3),
        0b00001000 => Some(4),
        0b00000100 => Some(5),
        0b00000010 => Some(6),
        0b00000001 => Some(7),
        _ => None,
    }
}

/// The 32-byte word with exactly the bit at position `k` set.
fn one_hot_word_of(k: usize) -> (out: [u8; 32])
    requires
        k < 256,
    ensures
        out@ == one_hot_word(k as int),
{
    let mut out = [0u8; 32];
    out[k / 8] = one_hot_of(k % 8);
    proof {
        assert(out@ =~= one_hot_word(k as int));
    }
    out
}

/// Find the single set bit of a word, or report a domain error if the
/// word is not exactly one-hot.
fn find_one_hot(input: &[u8; 32]) -> (r: Result<usize, TuringError>)
    ensures
        match r {
            Ok(k) => k < 256 && input@ == one_hot_word(k as int),
            Err(e) => e matches TuringError::DomainError && !is_one_hot(input@),
        },
{
    let mut j: usize = 0;
    let mut found: bool = false;
    let mut pos: usize = 0;
    while j < 32
        invariant
            j <= 32,
            found ==> pos < 256 && pos / 8 < j && (forall|i: int|
                0 <= i < j ==> input@[i] == one_hot_word(pos as int)[i]),
            !found ==> (forall|i: int| 0 <= i < j ==> input@[i] == 0),
        decreases 32 - j,
    {
        let byte = input[j];
        if byte != 0 {
            if found {
                proof {
                    lemma_not_one_hot_second_byte(input@, pos as int, j as int);
                }
                return Err(TuringError::DomainError);
            }
            match one_hot_get_index(byte) {
                None => {
                    proof {
                        lemma_not_one_hot_bad_byte(input@, j as int);
                    }
                    return Err(TuringError::DomainError);
                },
                Some(b) => {
                    pos = j * 8 + b;
                    found = true;
                    proof {
                        assert(pos / 8 == j);
                        assert(pos % 8 == b);
                        assert(forall|i: int|
                            0 <= i < j ==> input@[i] == one_hot_word(pos as int)[i]);
                        assert(input@[j as int] == one_hot_word(pos as int)[j as int]);
                    }
                },
            }
        }
        j = j + 1;
    }
    if !found {
        proof {
            lemma_not_one_hot_all_zero(input@);
        }
        return Err(TuringError::DomainError);
    }
    proof {
        assert(input@ =~= one_hot_word(pos as int));
    }
    Ok(pos)
}

/// A word whose bytes are all zero where a one-hot word would have its
/// set byte cannot be one-hot.
proof fn lemma_not_one_hot_all_zero(w: Seq<u8>)
    requires
        w.len() == 32,
        forall|i: int| 0 <= i < 32 ==> w[i] == 0,
    ensures
        !is_one_hot(w),
{
    assert forall|k: int| 0 <= k < 256 implies w != one_hot_word(k) by {
        assert(one_hot_word(k)[k / 8] == one_hot_byte(k % 8));
        assert(one_hot_byte(k % 8) != 0);
        assert(w[k / 8] == 0);
    }
}

/// A word with a nonzero byte that is not a one-hot byte cannot be a
/// one-hot word.
proof fn lemma_not_one_hot_bad_byte(w: Seq<u8>, j: int)
    requires
        w.len() == 32,
        0 <= j < 32,
        w[j] != 0,
        forall|m: int| 0 <= m < 8 ==> w[j] != one_hot_byte(m),
    ensures
        !is_one_hot(w),
{
    assert forall|k: int| 0 <= k < 256 implies w != one_hot_word(k) by {
        if w == one_hot_word(k) {
            assert(w[j] == if j == k / 8 {
                one_hot_byte(k % 8)
            } else {
                0u8
            });
            assert(j == k / 8);
            assert(0 <= k % 8 < 8);
        }
    }
}

/// A word with two distinct nonzero bytes cannot be a one-hot word.
proof fn lemma_not_one_hot_second_byte(w: Seq<u8>, pos: int, j: int)
    requires
        w.len() == 32,
        0 <= pos < 256,
        pos / 8 < j < 32,
        forall|i: int| 0 <= i < j ==> w[i] == one_hot_word(pos)[i],
        w[j] != 0,
    ensures
        !is_one_hot(w),
{
    assert forall|k: int| 0 <= k < 256 implies w != one_hot_word(k) by {
        if w == one_hot_word(k) {
            assert(w[j] == if j == k / 8 {
                one_hot_byte(k % 8)
            } else {
                0u8
            });
            assert(j == k / 8);
            assert(w[pos / 8] == one_hot_word(pos)[pos / 8]);
            assert(w[pos / 8] == one_hot_byte(pos % 8));
            assert(one_hot_byte(pos % 8) != 0);
            assert(pos / 8 == k / 8);
        }
    }
}

/// The result of moving the set bit of a one-hot word one position
/// toward the end of the word; a domain error on any other input.
pub open spec fn right_shift_spec(w: Seq<u8>) -> Result<Seq<u8>, TuringError> {
    if is_one_hot(w) && one_hot_pos(w) < 255 {
        Ok(one_hot_word(one_hot_pos(w) + 1))
    } else {
        Err(TuringError::DomainError)
    }
}

/// The result of moving the set bit of a one-hot word one position
/// toward the start of the word; a domain error on any other input.
pub open spec fn left_shift_spec(w: Seq<u8>) -> Result<Seq<u8>, TuringError> {
    if is_one_hot(w) && one_hot_pos(w) > 0 {
        Ok(one_hot_word(one_hot_pos(w) - 1))
    } else {
        Err(TuringError::DomainError)
    }
}

/// Masking facts for single bytes: a disjunction masked by the mask is
/// the mask, and a word cleared by the mask's complement masks to zero.
proof fn lemma_byte_masks(x: u8, y: u8)
    by (bit_vector)
    ensures
        (x | y) & y == y,
        ((x & !y) & y) == 0,
{
}

/// Masking the disjunction of a word and a mask by the mask yields the
/// mask itself.
pub proof fn lemma_and_or_mask(w: Seq<u8>, m: Seq<u8>)
    requires
        w.len() == 32,
        m.len() == 32,
    ensures
        and_words(or_words(w, m), m) == m,
{
    assert forall|j: int| 0 <= j < 32 implies and_words(or_words(w, m), m)[j] == m[j] by {
        lemma_byte_masks(w[j], m[j]);
    }
    assert(and_words(or_words(w, m), m) =~= m);
}

/// Masking a word that was cleared by a mask's complement by the mask
/// itself yields all zero.
pub proof fn lemma_and_clear_mask(w: Seq<u8>, m: Seq<u8>)
    requires
        w.len() == 32,
        m.len() == 32,
    ensures
        is_zero_word(and_words(and_words(w, not_word(m)), m)),
{
    assert forall|j: int| 0 <= j < 32 implies and_words(and_words(w, not_word(m)), m)[j]
        == 0 by {
        lemma_byte_masks(w[j], m[j]);
    }
}

/// Masking facts for a byte against a one-hot mask byte: a set mask bit
/// makes the disjunction a no-op, a clear one makes the masked clearing a
/// no-op.
proof fn lemma_byte_one_hot_masks(x: u8, y: u8)
    by (bit_vector)
    requires
        y == 0x80 || y == 0x40 || y == 0x20 || y == 0x10 || y == 0x08 || y == 0x04 || y == 0x02
            || y == 0x01 || y == 0,
    ensures
        y == 0 ==> (x & y) == 0 && (x | y) == x,
        x & y != 0 ==> (x | y) == x,
        x & y == 0 ==> (x & !y) == x,
{
}

/// Writing back the symbol read at a one-hot index leaves the word
/// unchanged: the disjunction when the masked word is nonzero, the
/// clearing by the mask's complement when it is zero.
pub proof fn lemma_mask_write_back(w: Seq<u8>, k: int)
    requires
        w.len() == 32,
        0 <= k < 256,
    ensures
        !is_zero_word(and_words(w, one_hot_word(k))) ==> or_words(w, one_hot_word(k)) == w,
        is_zero_word(and_words(w, one_hot_word(k))) ==> and_words(w, not_word(one_hot_word(k)))
            == w,
{
    let m = one_hot_word(k);
    if !is_zero_word(and_words(w, m)) {
        assert(exists|j: int| 0 <= j < 32 && and_words(w, m)[j] != 0) by {
            assert(!(forall|j: int| 0 <= j < 32 ==> and_words(w, m)[j] == 0));
        }
        let j = choose|j: int| 0 <= j < 32 && and_words(w, m)[j] != 0;
        assert(and_words(w, m)[j] == (w[j] & m[j]));
        if j != k / 8 {
            assert(m[j] == 0);
            lemma_byte_one_hot_masks(w[j], m[j]);
            assert(false);
        }
        assert(w[k / 8] & m[k / 8] != 0);
        assert forall|i: int| 0 <= i < 32 implies or_words(w, m)[i] == w[i] by {
            lemma_byte_one_hot_masks(w[i], m[i]);
        }
        assert(or_words(w, m) =~= w);
    } else {
        assert forall|i: int| 0 <= i < 32 implies and_words(w, not_word(m))[i] == w[i] by {
            assert(and_words(w, m)[i] == 0);
            lemma_byte_one_hot_masks(w[i], m[i]);
        }
        assert(and_words(w, not_word(m)) =~= w);
    }
}

/// A one-hot word is not all zero.
pub proof fn lemma_one_hot_not_zero(w: Seq<u8>)
    requires
        is_one_hot(w),
    ensures
        !is_zero_word(w),
{
    let k = one_hot_pos(w);
    assert(0 <= k < 256 && w == one_hot_word(k));
    assert(w[k / 8] == one_hot_byte(k % 8));
    assert(one_hot_byte(k % 8) != 0);
}

/// The two one-hot shifts are mutual inverses wherever both are in
/// domain, and each signals a domain error at its boundary — the set bit
/// never wraps silently.
pub proof fn lemma_shift_inverses(w: Seq<u8>)
    requires
        is_one_hot(w),
    ensures
        right_shift_spec(w) matches Ok(w2) ==> left_shift_spec(w2) == Result::<
            Seq<u8>,
            TuringError,
        >::Ok(w),
        left_shift_spec(w) matches Ok(w2) ==> right_shift_spec(w2) == Result::<
            Seq<u8>,
            TuringError,
        >::Ok(w),
        right_shift_spec(w) is Err <==> w == one_hot_word(255),
        left_shift_spec(w) is Err <==> w == one_hot_word(0),
{
    let k = one_hot_pos(w);
    assert(0 <= k < 256 && w == one_hot_word(k));
    if k < 255 {
        let w2 = one_hot_word(k + 1);
        assert(0 <= k + 1 < 256 && w2 == one_hot_word(k + 1));
        assert(is_one_hot(w2));
        lemma_one_hot_word_injective(one_hot_pos(w2), k + 1);
        assert(left_shift_spec(w2) == Result::<Seq<u8>, TuringError>::Ok(w));
    } else {
        lemma_one_hot_word_injective(k, 255);
    }
    if w == one_hot_word(255) {
        lemma_one_hot_word_injective(k, 255);
    }
    if k > 0 {
        let w2 = one_hot_word(k - 1);
        assert(0 <= k - 1 < 256 && w2 == one_hot_word(k - 1));
        assert(is_one_hot(w2));
        lemma_one_hot_word_injective(one_hot_pos(w2), k - 1);
        assert(right_shift_spec(w2) == Result::<Seq<u8>, TuringError>::Ok(w));
    }
    if w == one_hot_word(0) {
        lemma_one_hot_word_injective(k, 0);
    }
}

/// Move the set bit of a one-hot word one position toward the end of the
/// word, rippling across byte boundaries; shifting the last bit of the
/// word, or any input that is not one-hot, is a domain error.
pub fn right_shift_256(input: &[u8; 32]) -> (r: Result<[u8; 32], TuringError>)
    ensures
        match r {
            Ok(out) => right_shift_spec(input@) == Result::<Seq<u8>, TuringError>::Ok(out@),
            Err(e) => right_shift_spec(input@) == Result::<Seq<u8>, TuringError>::Err(e),
        },
{
    let pos = match find_one_hot(input) {
        Ok(pos) => pos,
        Err(e) => {
            return Err(e);
        },
    };
    proof {
        lemma_one_hot_word_injective(one_hot_pos(input@), pos as int);
    }
    if pos == 255 {
        return Err(TuringError::DomainError);
    }
    Ok(one_hot_word_of(pos + 1))
}

/// Move the set bit of a one-hot word one position toward the start of
/// the word, rippling across byte boundaries; shifting the first bit of
/// the word, or any input that is not one-hot, is a domain error.
pub fn left_shift_256(input: &[u8; 32]) -> (r: Result<[u8; 32], TuringError>)
    ensures
        match r {
            Ok(out) => left_shift_spec(input@) == Result::<Seq<u8>, TuringError>::Ok(out@),
            Err(e) => left_shift_spec(input@) == Result::<Seq<u8>, TuringError>::Err(e),
        },
{
    let pos = match find_one_hot(input) {
        Ok(pos) => pos,
        Err(e) => {
            return Err(e);
        },
    };
    proof {
        lemma_one_hot_word_injective(one_hot_pos(input@), pos as int);
    }
    if pos == 0 {
        return Err(TuringError::DomainError);
    }
    Ok(one_hot_word_of(pos - 1))
}

/// The bitwise conjunction of two words, byte by byte.
pub open spec fn and_words(a: Seq<u8>, b: Seq<u8>) -> Seq<u8> {
    Seq::new(32, |i: int| a[i] & b[i])
}

/// The bitwise disjunction of two words, byte by byte.
pub open spec fn or_words(a: Seq<u8>, b: Seq<u8>) -> Seq<u8> {
    Seq::new(32, |i: int| a[i] | b[i])
}

/// The bitwise complement of a word, byte by byte.
pub open spec fn not_word(a: Seq<u8>) -> Seq<u8> {
    Seq::new(32, |i: int| !a[i])
}

/// Whether every byte of a word is zero.
pub open spec fn is_zero_word(a: Seq<u8>) -> bool {
    forall|i: int| 0 <= i < 32 ==> a[i] == 0
}

/// Bitwise conjunction of two 256-bit words.
pub fn and_256(a: &[u8; 32], b: &[u8; 32]) -> (out: [u8; 32])
    ensures
        out@ == and_words(a@, b@),
{
    let mut out = [0u8; 32];
    let mut k: usize = 0;
    while k < 32
        invariant
            k <= 32,
            forall|i: int| 0 <= i < k ==> out@[i] == (a@[i] & b@[i]),
        decreases 32 - k,
    {
        out[k] = a[k] & b[k];
        k = k + 1;
    }
    proof {
        assert(out@ =~= and_words(a@, b@));
    }
    out
}

/// Bitwise disjunction of two 256-bit words.
pub fn or_256(a: &[u8; 32], b: &[u8; 32]) -> (out: [u8; 32])
    ensures
        out@ == or_words(a@, b@),
{
    let mut out = [0u8; 32];
    let mut k: usize = 0;
    while k < 32
        invariant
            k <= 32,
            forall|i: int| 0 <= i < k ==> out@[i] == (a@[i] | b@[i]),
        decreases 32 - k,
    {
        out[k] = a[k] | b[k];
        k = k + 1;
    }
    proof {
        assert(out@ =~= or_words(a@, b@));
    }
    out
}

/// Bitwise complement of a 256-bit word.
pub fn complement_256(a: &[u8; 32]) -> (out: [u8; 32])
    ensures
        out@ == not_word(a@),
{
    let mut out = [0u8; 32];
    let mut k: usize = 0;
    while k < 32
        invariant
            k <= 32,
            forall|i: int| 0 <= i < k ==> out@[i] == !a@[i],
        decreases 32 - k,
    {
        out[k] = !a[k];
        k = k + 1;
    }
    proof {
        assert(out@ =~= not_word(a@));
    }
    out
}

/// Whether a 256-bit word is all zero.
pub fn is_zero_256(a: &[u8; 32]) -> (r: bool)
    ensures
        r == is_zero_word(a@),
{
    let mut k: usize = 0;
    while k < 32
        invariant
            k <= 32,
            forall|i: int| 0 <= i < k ==> a@[i] == 0,
        decreases 32 - k,
    {
        if a[k] != 0 {
            return false;
        }
        k = k + 1;
    }
    true
}

/// What each native operation returns on a value: its bitwise semantics
/// on words of the right shape, and a type error on any other shape.
pub open spec fn jet_sem(jet: TuringJetName, v: Value) -> Result<Value, TuringError> {
    match jet {
        TuringJetName::Eq256 => match v {
            Value::Prod(a, b) => match (*a, *b) {
                (Value::Word(x), Value::Word(y)) => Ok(Value::bit_spec(x == y)),
                _ => Err(TuringError::TypeError),
            },
            _ => Err(TuringError::TypeError),
        },
        TuringJetName::And256 => match v {
            Value::Prod(a, b) => match (*a, *b) {
                (Value::Word(x), Value::Word(y)) => Ok(
                    Value::Word(word_with(x, and_words(x@, y@))),
                ),
                _ => Err(TuringError::TypeError),
            },
            _ => Err(TuringError::TypeError),
        },
        TuringJetName::Or256 => match v {
            Value::Prod(a, b) => match (*a, *b) {
                (Value::Word(x), Value::Word(y)) => Ok(
                    Value::Word(word_with(x, or_words(x@, y@))),
                ),
                _ => Err(TuringError::TypeError),
            },
            _ => Err(TuringError::TypeError),
        },
        TuringJetName::Complement256 => match v {
            Value::Word(x) => Ok(Value::Word(word_with(x, not_word(x@)))),
            _ => Err(TuringError::TypeError),
        },
        TuringJetName::IsZero256 => match v {
            Value::Word(x) => Ok(Value::bit_spec(is_zero_word(x@))),
            _ => Err(TuringError::TypeError),
        },
        TuringJetName::RightShift256 => match v {
            Value::Word(x) => match right_shift_spec(x@) {
                Ok(s) => Ok(Value::Word(word_with(x, s))),
                Err(e) => Err(e),
            },
            _ => Err(TuringError::TypeError),
        },
        TuringJetName::LeftShift256 => match v {
            Value::Word(x) => match left_shift_spec(x@) {
                Ok(s) => Ok(Value::Word(word_with(x, s))),
                Err(e) => Err(e),
            },
            _ => Err(TuringError::TypeError),
        },
    }
}

impl Turing {
    /// Execute one native operation on a value, reading and writing whole
    /// words rather than going through general combinator evaluation.
    pub fn exec_jet(jet: TuringJetName, input: &Value) -> (r: Result<Value, TuringError>)
        ensures
            r == jet_sem(jet, *input),
    {
        match jet {
            TuringJetName::Eq256 => match input {
                Value::Prod(a, b) => match (&**a, &**b) {
                    (Value::Word(x), Value::Word(y)) => {
                        let e = eq_word(x, y);
                        proof {
                            if e {
                                assert(x@ == y@);
                                assert(*x =~= *y);
                            } else {
                                if *x == *y {
                                    assert(x@ =~= y@);
                                }
                            }
                        }
                        Ok(Value::u1(if e {
                            1
                        } else {
                            0
                        }))
                    },
                    _ => Err(TuringError::TypeError),
                },
                _ => Err(TuringError::TypeError),
            },
            TuringJetName::And256 => match input {
                Value::Prod(a, b) => match (&**a, &**b) {
                    (Value::Word(x), Value::Word(y)) => {
                        let out = and_256(x, y);
                        proof {
                            lemma_word_with(*x, and_words(x@, y@));
                            assert(out =~= word_with(*x, and_words(x@, y@)));
                        }
                        Ok(Value::Word(out))
                    },
                    _ => Err(TuringError::TypeError),
                },
                _ => Err(TuringError::TypeError),
            },
            TuringJetName::Or256 => match input {
                Value::Prod(a, b) => match (&**a, &**b) {
                    (Value::Word(x), Value::Word(y)) => {
                        let out = or_256(x, y);
                        proof {
                            lemma_word_with(*x, or_words(x@, y@));
                            assert(out =~= word_with(*x, or_words(x@, y@)));
                        }
                        Ok(Value::Word(out))
                    },
                    _ => Err(TuringError::TypeError),
                },
                _ => Err(TuringError::TypeError),
            },
            TuringJetName::Complement256 => match input {
                Value::Word(x) => {
                    let out = complement_256(x);
                    proof {
                        lemma_word_with(*x, not_word(x@));
                        assert(out =~= word_with(*x, not_word(x@)));
                    }
                    Ok(Value::Word(out))
                },
                _ => Err(TuringError::TypeError),
            },
            TuringJetName::IsZero256 => match input {
                Value::Word(x) => {
                    let z = is_zero_256(x);
                    Ok(Value::u1(if z {
                        1
                    } else {
                        0
                    }))
                },
                _ => Err(TuringError::TypeError),
            },
            TuringJetName::RightShift256 => match input {
                Value::Word(x) => match right_shift_256(x) {
                    Ok(out) => {
                        proof {
                            lemma_word_with(*x, out@);
                            assert(out =~= word_with(*x, out@));
                        }
                        Ok(Value::Word(out))
                    },
                    Err(e) => Err(e),
                },
                _ => Err(TuringError::TypeError),
            },
            TuringJetName::LeftShift256 => match input {
                Value::Word(x) => match left_shift_256(x) {
                    Ok(out) => {
                        proof {
                            lemma_word_with(*x, out@);
                            assert(out =~= word_with(*x, out@));
                        }
                        Ok(Value::Word(out))
                    },
                    Err(e) => Err(e),
                },
                _ => Err(TuringError::TypeError),
            },
        }
    }

    /// Decode a seven-bit native-operation code; a code that names no
    /// native operation is a parse failure.
    pub fn decode_jet(code: u8) -> (r: Result<TuringJetName, ParseError>)
        ensures
            match r {
                Ok(name) => code == jet_code_spec(name),
                Err(e) => e == ParseError::IllegalJet && code > 6,
            },
    {
        match code {
            0 => Ok(TuringJetName::Eq256),
            1 => Ok(TuringJetName::RightShift256),
            2 => Ok(TuringJetName::LeftShift256),
            3 => Ok(TuringJetName::Complement256),
            4 => Ok(TuringJetName::And256),
            5 => Ok(TuringJetName::Or256),
            6 => Ok(TuringJetName::IsZero256),
            _ => Err(ParseError::IllegalJet),
        }
    }

    /// Encode a native operation as one byte: the high bit set, then the
    /// operation's seven-bit code.
    pub fn encode_jet(jet: TuringJetName) -> (b: u8)
        ensures
            b == 128 + jet_code_spec(jet),
    {
        match jet {
            TuringJetName::Eq256 => 128,
            TuringJetName::RightShift256 => 128 + 1,
            TuringJetName::LeftShift256 => 128 + 2,
            TuringJetName::Complement256 => 128 + 3,
            TuringJetName::And256 => 128 + 4,
            TuringJetName::Or256 => 128 + 5,
            TuringJetName::IsZero256 => 128 + 6,
        }
    }
}

} // verus!
