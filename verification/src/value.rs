//! Runtime values consumed and produced by combinator programs.
//!
//! A value is the unit, an injection into the left or right arm of a sum,
//! a product of two values, or a 256-bit word.  Words stand for the
//! fixed-width tapes and indices of a machine configuration and are kept
//! as whole 32-byte blocks: the native operations consume and produce
//! them without ever decomposing them into single bits.

use vstd::prelude::*;

verus! {

broadcast use vstd::array::group_array_axioms;

/// A value of the combinator model.
#[derive(Debug)]
pub enum Value {
    /// The unique value of the unit type.
    Unit,
    /// A value injected into the left arm of a sum.
    Left(Box<Value>),
    /// A value injected into the right arm of a sum.
    Right(Box<Value>),
    /// A pair of values.
    Prod(Box<Value>, Box<Value>),
    /// A 256-bit word, such as a tape or a one-hot index.
    Word([u8; 32]),
}

impl Value {
    /// The single bit `b`: false is the left injection of unit, true the
    /// right one.
    pub open spec fn bit_spec(b: bool) -> Value {
        if b {
            Value::Right(Box::new(Value::Unit))
        } else {
            Value::Left(Box::new(Value::Unit))
        }
    }

    /// A one-bit value.
    pub fn u1(n: u8) -> (v: Value)
        requires
            n < 2,
        ensures
            v == Value::bit_spec(n == 1),
    {
        if n == 1 {
            Value::Right(Box::new(Value::Unit))
        } else {
            Value::Left(Box::new(Value::Unit))
        }
    }

    /// The two-bit value `n`, most significant bit first.
    pub open spec fn u2_spec(n: u8) -> Value {
        Value::Prod(
            Box::new(Value::bit_spec(n / 2 % 2 == 1)),
            Box::new(Value::bit_spec(n % 2 == 1)),
        )
    }

    /// A two-bit value, most significant bit first.
    pub fn u2(n: u8) -> (v: Value)
        requires
            n < 4,
        ensures
            v == Value::u2_spec(n),
    {
        Value::Prod(Box::new(Self::u1(n / 2 % 2)), Box::new(Self::u1(n % 2)))
    }

    /// The product of two values.
    pub fn prod(a: Value, b: Value) -> (v: Value)
        ensures
            v == Value::Prod(Box::new(a), Box::new(b)),
    {
        Value::Prod(Box::new(a), Box::new(b))
    }

    /// A 256-bit word from its 32 bytes.
    pub fn u256_from_slice(bytes: &[u8; 32]) -> (v: Value)
        ensures
            v == Value::Word(*bytes),
    {
        Value::Word(*bytes)
    }

    /// A structurally identical copy of the value.
    pub fn duplicate(&self) -> (r: Value)
        ensures
            r == *self,
        decreases *self,
    {
        match self {
            Value::Unit => Value::Unit,
            Value::Left(a) => Value::Left(Box::new(a.duplicate())),
            Value::Right(a) => Value::Right(Box::new(a.duplicate())),
            Value::Prod(a, b) => Value::Prod(Box::new(a.duplicate()), Box::new(b.duplicate())),
            Value::Word(w) => Value::Word(*w),
        }
    }

    /// Structural equality of two values.
    pub fn eq_value(&self, other: &Value) -> (r: bool)
        ensures
            r <==> *self == *other,
        decreases *self,
    {
        match (self, other) {
            (Value::Unit, Value::Unit) => true,
            (Value::Left(a), Value::Left(b)) => a.eq_value(b),
            (Value::Right(a), Value::Right(b)) => a.eq_value(b),
            (Value::Prod(a, b), Value::Prod(c, d)) => {
                let fst = a.eq_value(c);
                let snd = b.eq_value(d);
                fst && snd
            },
            (Value::Word(a), Value::Word(b)) => {
                let r = eq_word(a, b);
                proof {
                    if a@ =~= b@ {
                        assert(a =~= b);
                    }
                }
                r
            },
            _ => false,
        }
    }
}

/// The array `base` with its first `n` bytes replaced by the first `n`
/// elements of `s`.
pub open spec fn overwrite_prefix(base: [u8; 32], s: Seq<u8>, n: int) -> [u8; 32]
    decreases n,
{
    if n <= 0 {
        base
    } else {
        vstd::array::spec_array_update(overwrite_prefix(base, s, n - 1), n - 1, s[n - 1])
    }
}

/// The 32-byte array whose bytes are exactly the 32 elements of `s`,
/// built by rewriting `base`.
pub open spec fn word_with(base: [u8; 32], s: Seq<u8>) -> [u8; 32] {
    overwrite_prefix(base, s, 32)
}

proof fn lemma_overwrite_prefix(base: [u8; 32], s: Seq<u8>, n: int)
    requires
        0 <= n <= 32,
        s.len() == 32,
    ensures
        forall|i: int|
            0 <= i < 32 ==> overwrite_prefix(base, s, n)@[i] == if i < n {
                s[i]
            } else {
                base@[i]
            },
    decreases n,
{
    if n > 0 {
        lemma_overwrite_prefix(base, s, n - 1);
        let prev = overwrite_prefix(base, s, n - 1);
        assert(overwrite_prefix(base, s, n) == vstd::array::spec_array_update(
            prev,
            n - 1,
            s[n - 1],
        ));
        assert(overwrite_prefix(base, s, n)@ == prev@.update(n - 1, s[n - 1]));
    }
}

/// Rewriting an array to a 32-element byte sequence yields an array whose
/// view is that sequence.
pub proof fn lemma_word_with(base: [u8; 32], s: Seq<u8>)
    requires
        s.len() == 32,
    ensures
        word_with(base, s)@ == s,
{
    lemma_overwrite_prefix(base, s, 32);
    assert(word_with(base, s)@ =~= s);
}

/// Byte-for-byte equality of two 256-bit words.
pub fn eq_word(a: &[u8; 32], b: &[u8; 32]) -> (r: bool)
    ensures
        r <==> a@ =~= b@,
{
    let mut k: usize = 0;
    while k < 32
        invariant
            k <= 32,
            forall|j: int| 0 <= j < k ==> a@[j] == b@[j],
        decreases 32 - k,
    {
        if a[k] != b[k] {
            return false;
        }
        k = k + 1;
    }
    true
}

} // verus!
