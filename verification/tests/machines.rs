//! Tests of the sample machines' transition terms.

use simple_turing::eval::Program;
use simple_turing::jet::application::TuringError;
use simple_turing::machine::{Machine, ThreeBeavers, Trivial, TwoBeavers};
use simple_turing::value::Value;

fn run(term: simple_turing::term::Term, input: Value) -> Result<Value, TuringError> {
    let program = Program::finalize(term, Vec::new()).unwrap();
    program.execute(&input)
}

#[test]
fn trivial_left() {
    let output = run(Trivial::left(), Value::Unit).unwrap();
    assert!(Value::u1(0).eq_value(&output));
}

#[test]
fn trivial_state() {
    let q_b_state = vec![
        (Value::u1(0), Value::u1(0), Value::u1(0)),
        (Value::u1(0), Value::u1(1), Value::u1(1)),
        (Value::u1(1), Value::u1(0), Value::u1(1)),
        (Value::u1(1), Value::u1(1), Value::u1(1)),
    ];

    for (q, b, state) in q_b_state {
        let output = run(Trivial::state(), Value::prod(q, b)).unwrap();
        assert!(state.eq_value(&output));
    }
}

#[test]
fn trivial_write() {
    let output = run(Trivial::write(), Value::prod(Value::Unit, Value::Unit)).unwrap();
    assert!(Value::Unit.eq_value(&output));
}

#[test]
fn two_beavers_left() {
    let b_q_left = vec![
        (Value::u1(0), Value::u1(0), Value::u1(0)),
        (Value::u1(0), Value::u1(1), Value::u1(1)),
        (Value::u1(1), Value::u1(0), Value::u1(1)),
    ];

    for (b, q, left) in b_q_left {
        let output = run(TwoBeavers::left(), Value::prod(b, q)).unwrap();
        assert!(left.eq_value(&output));
    }
}

#[test]
fn two_beavers_state() {
    let b_q_state = vec![
        (Value::Unit, Value::u1(0), Value::u1(1)),
        (Value::Unit, Value::u1(1), Value::u1(0)),
    ];

    for (b, q, state) in b_q_state {
        let output = run(TwoBeavers::state(), Value::prod(b, q)).unwrap();
        assert!(state.eq_value(&output));
    }
}

#[test]
fn two_beavers_write() {
    let output = run(TwoBeavers::write(), Value::prod(Value::Unit, Value::Unit)).unwrap();
    assert!(Value::u1(1).eq_value(&output));
}

#[test]
fn three_beavers_left() {
    // The cursor direction is the top bit of the two-bit state.
    let b_q_left = vec![
        (Value::u1(0), Value::u2(0), Value::u1(0)),
        (Value::u1(1), Value::u2(1), Value::u1(0)),
        (Value::u1(0), Value::u2(2), Value::u1(1)),
        (Value::u1(1), Value::u2(3), Value::u1(1)),
    ];

    for (b, q, left) in b_q_left {
        let output = run(ThreeBeavers::left(), Value::prod(b, q)).unwrap();
        assert!(left.eq_value(&output));
    }
}

#[test]
fn three_beavers_state() {
    let b_q_state = vec![
        (Value::u1(0), Value::u2(0), Value::u2(1)),
        (Value::u1(0), Value::u2(1), Value::u2(2)),
        (Value::u1(1), Value::u2(1), Value::u2(1)),
        (Value::u1(0), Value::u2(2), Value::u2(2)),
        (Value::u1(1), Value::u2(2), Value::u2(0)),
    ];

    for (b, q, state) in b_q_state {
        let output = run(ThreeBeavers::state(), Value::prod(b, q)).unwrap();
        assert!(state.eq_value(&output));
    }
}

#[test]
fn three_beavers_write() {
    let output = run(ThreeBeavers::write(), Value::prod(Value::u1(1), Value::u2(0))).unwrap();
    assert!(Value::u1(1).eq_value(&output));
}
