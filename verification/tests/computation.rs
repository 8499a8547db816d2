//! Tests of the default configuration encoding.

use simple_turing::computation::{Computation, Computation256};
use simple_turing::eval::Program;
use simple_turing::jet::application::TuringError;
use simple_turing::value::Value;

fn run(term: simple_turing::term::Term, input: Value) -> Result<Value, TuringError> {
    let program = Program::finalize(term, Vec::new()).unwrap();
    program.execute(&input)
}

#[test]
fn get() {
    let w = Value::u256_from_slice(&[
        0b1000000, 0, 0, 0, 0, 0, 0, 0, 0, 0, 0, 0, 0, 0, 0, 0, 0, 0, 0, 0, 0, 0, 0, 0, 0, 0,
        0, 0, 0, 0, 0, 0,
    ]);
    let i = Value::u256_from_slice(&[
        0b1000000, 0, 0, 0, 0, 0, 0, 0, 0, 0, 0, 0, 0, 0, 0, 0, 0, 0, 0, 0, 0, 0, 0, 0, 0, 0,
        0, 0, 0, 0, 0, 0,
    ]);

    let output = run(Computation256::get(), Value::prod(w, i)).unwrap();
    assert!(Value::u1(1).eq_value(&output));
}

#[test]
fn set() {
    let base = [
        0, 0, 0, 0, 0, 0, 0, 0, 0, 0, 0, 0, 0, 0, 0, 0, 0, 0, 0, 0, 0, 0, 0, 0, 0, 0, 0, 0, 0,
        0, 0, 0,
    ];
    let symbol_input_output = vec![
        (0, 0b00000000, 0b00000000),
        (0, 0b10000000, 0b00000000),
        (1, 0b00000000, 0b10000000),
        (1, 0b10000000, 0b10000000),
    ];
    let index = 0b10000000;

    for (symbol, input_byte, output_byte) in symbol_input_output {
        let mut input_tape = base.clone();
        input_tape[0] = input_byte;
        let mut unary_index = base.clone();
        unary_index[0] = index;
        let mut output_tape = base.clone();
        output_tape[0] = output_byte;

        let b = Value::u1(symbol);
        let w = Value::u256_from_slice(&input_tape);
        let i = Value::u256_from_slice(&unary_index);
        let expected = Value::u256_from_slice(&output_tape);

        let output = run(Computation256::set(), Value::prod(b, Value::prod(w, i))).unwrap();

        assert!(expected.eq_value(&output));
    }
}

#[test]
fn get_after_set_everywhere() {
    // Setting any symbol at any one-hot index and reading it back yields
    // the symbol, whatever the tape held before.
    let mut tape = [0u8; 32];
    for (k, byte) in tape.iter_mut().enumerate() {
        *byte = (k as u8).wrapping_mul(151).wrapping_add(3);
    }
    for pos in [0usize, 7, 8, 100, 255] {
        for symbol in 0u8..2 {
            let mut index = [0u8; 32];
            index[pos / 8] = 0x80 >> (pos % 8);

            let config = Value::prod(
                Value::u1(symbol),
                Value::prod(Value::u256_from_slice(&tape), Value::u256_from_slice(&index)),
            );
            let new_tape = run(Computation256::set(), config).unwrap();
            let read = run(
                Computation256::get(),
                Value::prod(new_tape, Value::u256_from_slice(&index)),
            )
            .unwrap();
            assert!(read.eq_value(&Value::u1(symbol)));
        }
    }
}

#[test]
fn inc_dec_index_inverse() {
    // Moving the index forward then backward restores it; the two domain
    // boundaries signal a domain error instead of wrapping.
    for pos in [0usize, 7, 8, 200, 254] {
        let mut index = [0u8; 32];
        index[pos / 8] = 0x80 >> (pos % 8);
        let moved = run(Computation256::inc_index(), Value::u256_from_slice(&index)).unwrap();
        let back = run(Computation256::dec_index(), moved).unwrap();
        assert!(back.eq_value(&Value::u256_from_slice(&index)));
    }

    let mut last = [0u8; 32];
    last[31] = 0b00000001;
    assert!(matches!(
        run(Computation256::inc_index(), Value::u256_from_slice(&last)),
        Err(TuringError::DomainError)
    ));

    let mut first = [0u8; 32];
    first[0] = 0b10000000;
    assert!(matches!(
        run(Computation256::dec_index(), Value::u256_from_slice(&first)),
        Err(TuringError::DomainError)
    ));
}
