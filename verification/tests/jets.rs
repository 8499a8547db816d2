//! Tests of the native 256-bit word operations.

use simple_turing::jet::application::left_shift_256 as left_shift;
use simple_turing::jet::application::right_shift_256 as right_shift;
use simple_turing::jet::application::{and_256, complement_256, is_zero_256, or_256, Turing, TuringError};
use simple_turing::jet::turing::TuringJetName;
use simple_turing::value::Value;

#[test]
fn right_shift_256() {
    let base = [
        0, 0, 0, 0, 0, 0, 0, 0, 0, 0, 0, 0, 0, 0, 0, 0, 0, 0, 0, 0, 0, 0, 0, 0, 0, 0, 0, 0, 0,
        0, 0, 0,
    ];
    let input_output_carry = vec![
        (0b10000000, 0b01000000, false),
        (0b01000000, 0b00100000, false),
        (0b00100000, 0b00010000, false),
        (0b00010000, 0b00001000, false),
        (0b00001000, 0b00000100, false),
        (0b00000100, 0b00000010, false),
        (0b00000010, 0b00000001, false),
        (0b00000001, 0b10000000, true),
    ];

    for (input_byte, output_byte, carry) in input_output_carry {
        let mut input = base.clone();
        input[0] = input_byte;
        let mut expected = base.clone();
        if carry {
            expected[1] = output_byte
        } else {
            expected[0] = output_byte
        };

        let output = simple_turing::jet::application::right_shift_256(&input).unwrap();
        assert_eq!(expected, output);
    }
}

#[test]
fn left_shift_256() {
    let base = [
        0, 0, 0, 0, 0, 0, 0, 0, 0, 0, 0, 0, 0, 0, 0, 0, 0, 0, 0, 0, 0, 0, 0, 0, 0, 0, 0, 0, 0,
        0, 0, 0,
    ];
    let input_output_carry = vec![
        (0b00000001, 0b00000010, false),
        (0b00000010, 0b00000100, false),
        (0b00000100, 0b00001000, false),
        (0b00001000, 0b00010000, false),
        (0b00010000, 0b00100000, false),
        (0b00100000, 0b01000000, false),
        (0b01000000, 0b10000000, false),
        (0b10000000, 0b00000001, true),
    ];

    for (input_byte, output_byte, carry) in input_output_carry {
        let mut input = base.clone();
        input[1] = input_byte;
        let mut expected = base.clone();
        if carry {
            expected[0] = output_byte
        } else {
            expected[1] = output_byte
        };

        let output = simple_turing::jet::application::left_shift_256(&input).unwrap();
        assert_eq!(expected, output);
    }
}

#[test]
fn right_shift_domain_error() {
    // Shifting the very last bit of the whole word is out of domain.
    let mut input = [0u8; 32];
    input[31] = 0b00000001;
    assert!(matches!(
        right_shift(&input),
        Err(TuringError::DomainError)
    ));
}

#[test]
fn left_shift_domain_error() {
    // Shifting the very first bit of the whole word is out of domain.
    let mut input = [0u8; 32];
    input[0] = 0b10000000;
    assert!(matches!(
        left_shift(&input),
        Err(TuringError::DomainError)
    ));
}

#[test]
fn shifts_reject_malformed_one_hot() {
    // All-zero and multi-bit words are outside the shifts' domain.
    let zero = [0u8; 32];
    assert!(matches!(right_shift(&zero), Err(TuringError::DomainError)));
    assert!(matches!(left_shift(&zero), Err(TuringError::DomainError)));

    let mut two_bits = [0u8; 32];
    two_bits[3] = 0b00010000;
    two_bits[17] = 0b00000001;
    assert!(matches!(right_shift(&two_bits), Err(TuringError::DomainError)));
    assert!(matches!(left_shift(&two_bits), Err(TuringError::DomainError)));

    let mut bad_byte = [0u8; 32];
    bad_byte[5] = 0b01100000;
    assert!(matches!(right_shift(&bad_byte), Err(TuringError::DomainError)));
    assert!(matches!(left_shift(&bad_byte), Err(TuringError::DomainError)));
}

#[test]
fn bitwise_ops_match_semantics() {
    let zero = [0u8; 32];
    let ones = [0xffu8; 32];
    let mut pattern = [0u8; 32];
    for (k, byte) in pattern.iter_mut().enumerate() {
        *byte = (k as u8).wrapping_mul(37).wrapping_add(11);
    }

    for a in [zero, ones, pattern] {
        for b in [zero, ones, pattern] {
            let mut expected_and = [0u8; 32];
            let mut expected_or = [0u8; 32];
            for k in 0..32 {
                expected_and[k] = a[k] & b[k];
                expected_or[k] = a[k] | b[k];
            }
            assert_eq!(expected_and, and_256(&a, &b));
            assert_eq!(expected_or, or_256(&a, &b));
        }
        let mut expected_not = [0u8; 32];
        for k in 0..32 {
            expected_not[k] = !a[k];
        }
        assert_eq!(expected_not, complement_256(&a));
        assert_eq!(a == zero, is_zero_256(&a));
    }
}

#[test]
fn exec_jet_matches_direct_ops() {
    let mut a = [0u8; 32];
    a[0] = 0b10100000;
    let mut b = [0u8; 32];
    b[0] = 0b11000000;

    let pair = Value::prod(Value::u256_from_slice(&a), Value::u256_from_slice(&b));
    let out = Turing::exec_jet(TuringJetName::And256, &pair).unwrap();
    let mut expected = [0u8; 32];
    expected[0] = 0b10000000;
    assert!(out.eq_value(&Value::u256_from_slice(&expected)));

    let pair = Value::prod(Value::u256_from_slice(&a), Value::u256_from_slice(&a));
    let eq = Turing::exec_jet(TuringJetName::Eq256, &pair).unwrap();
    assert!(eq.eq_value(&Value::u1(1)));

    let pair = Value::prod(Value::u256_from_slice(&a), Value::u256_from_slice(&b));
    let eq = Turing::exec_jet(TuringJetName::Eq256, &pair).unwrap();
    assert!(eq.eq_value(&Value::u1(0)));

    let zero = Value::u256_from_slice(&[0u8; 32]);
    let z = Turing::exec_jet(TuringJetName::IsZero256, &zero).unwrap();
    assert!(z.eq_value(&Value::u1(1)));
}

#[test]
fn exec_jet_rejects_wrong_shape() {
    // A native operation on a value of the wrong shape is a type error,
    // distinguishable from a domain error.
    let r = Turing::exec_jet(TuringJetName::And256, &Value::Unit);
    assert!(matches!(r, Err(TuringError::TypeError)));
}

#[test]
fn jet_codes_roundtrip() {
    for code in 0u8..7 {
        let name = Turing::decode_jet(code).unwrap();
        assert_eq!(128 + code, Turing::encode_jet(name));
    }
}

#[test]
fn decode_jet_rejects_illegal_code() {
    assert!(Turing::decode_jet(7).is_err());
    assert!(Turing::decode_jet(127).is_err());
}
