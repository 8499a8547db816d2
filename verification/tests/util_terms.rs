//! Tests of the shared building blocks.

use simple_turing::eval::Program;
use simple_turing::util::{computation256_of, encode_base64, eq_2 as eq_2_builder, eq_22 as eq_22_builder};
use simple_turing::value::Value;

#[test]
fn eq_2() {
    let program = Program::finalize(eq_2_builder(), Vec::new()).unwrap();

    for a in 0..2 {
        for b in 0..2 {
            let input = Value::prod(Value::u1(a), Value::u1(b));
            let eq = if a == b { Value::u1(1) } else { Value::u1(0) };

            let output = program.execute(&input).unwrap();
            assert!(eq.eq_value(&output));
        }
    }
}

#[test]
fn eq_22() {
    let program = Program::finalize(eq_22_builder(), Vec::new()).unwrap();

    for a in 0..4 {
        for b in 0..4 {
            let input = Value::prod(Value::u2(a), Value::u2(b));
            let eq = if a == b { Value::u1(1) } else { Value::u1(0) };

            let output = program.execute(&input).unwrap();
            assert!(eq.eq_value(&output));
        }
    }
}

#[test]
fn computation256_of_zips_configurations() {
    let states = vec![Value::u1(0), Value::u1(1)];
    let mut tape = [0u8; 32];
    tape[0] = 0b10000000;
    let tapes = vec![tape, tape];
    let mut i0 = [0u8; 32];
    i0[0] = 0b10000000;
    let mut i1 = [0u8; 32];
    i1[0] = 0b01000000;
    let indices = vec![i0, i1];

    let ws = computation256_of(&states, &tapes, &indices);
    assert_eq!(2, ws.len());
    let expected = Value::prod(
        Value::u1(1),
        Value::prod(Value::u256_from_slice(&tape), Value::u256_from_slice(&i1)),
    );
    assert!(expected.eq_value(&ws[1]));
}

#[test]
fn encode_base64_known_terms() {
    // The unit combinator encodes as the single tag byte 1.
    assert_eq!("AQ==", encode_base64(&simple_turing::term::Term::unit()));
    // A native operation encodes as its high-bit marker plus code.
    let eq_jet = simple_turing::term::Term::jet(
        simple_turing::jet::turing::TuringJetName::Eq256,
    );
    assert_eq!("gA==", encode_base64(&eq_jet));
}
