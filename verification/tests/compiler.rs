//! Tests of the trace-verification compiler: compilation, determinism,
//! and end-to-end execution of compiled programs against traces.

use simple_turing::computation::Computation256;
use simple_turing::eval::Program;
use simple_turing::jet::application::TuringError;
use simple_turing::machine::{Trivial, TwoBeavers};
use simple_turing::util::computation256_of;
use simple_turing::jet::turing::{jet_cmr, TuringJetName};
use simple_turing::term::Term;
use simple_turing::value::Value;
use simple_turing::Verifier;
use simplicity::Cmr;

type TrivialVerifier = Verifier<Computation256, Trivial>;
type TwoBeaversVerifier = Verifier<Computation256, TwoBeavers>;

fn one_hot(pos: usize) -> [u8; 32] {
    let mut word = [0u8; 32];
    word[pos / 8] = 0x80 >> (pos % 8);
    word
}

/// A valid Trivial-machine trace of `n` configurations: the tape holds a
/// one at position zero, so the machine reads it in the first step and
/// flips into its accepting state, then stays there while the cursor
/// moves right.
fn trivial_trace(n: usize) -> (Vec<Value>, Vec<[u8; 32]>, Vec<[u8; 32]>) {
    let tape = one_hot(0);
    let mut states = Vec::new();
    let mut tapes = Vec::new();
    let mut indices = Vec::new();
    for k in 0..n {
        states.push(Value::u1(if k == 0 { 0 } else { 1 }));
        tapes.push(tape);
        indices.push(one_hot(k));
    }
    (states, tapes, indices)
}

fn run_trivial(
    n: usize,
    states: &Vec<Value>,
    tapes: &Vec<[u8; 32]>,
    indices: &Vec<[u8; 32]>,
) -> Result<Value, TuringError> {
    let term = TrivialVerifier::verify_computation(n).unwrap();
    let witness = computation256_of(states, tapes, indices);
    let program = Program::finalize(term, witness).unwrap();
    program.execute(&Value::Unit)
}

#[test]
fn type_check() {
    // Every building block of the compiler holds no witnesses and can be
    // finalized on its own.
    let builders = vec![
        TwoBeaversVerifier::pair_q_b(),
        TwoBeaversVerifier::check_state(),
        TwoBeaversVerifier::check_index(),
        TwoBeaversVerifier::check_tape(),
        TwoBeaversVerifier::verify_step(),
        TwoBeaversVerifier::verify_first(),
        TwoBeaversVerifier::verify_last(),
    ];
    for term in builders {
        assert!(Program::finalize(term, Vec::new()).is_ok());
    }
}

#[test]
fn compile_rejects_short_trace() {
    assert!(TrivialVerifier::verify_computation(0).is_err());
    assert!(TrivialVerifier::verify_computation(1).is_err());
    assert!(TrivialVerifier::verify_computation(2).is_ok());
}

#[test]
fn compile_deterministic() {
    // Compiling the same (machine, encoding, step count) twice yields
    // programs with identical top-level commitment.
    for n in [2usize, 3, 5] {
        let a = TrivialVerifier::verify_computation(n).unwrap();
        let b = TrivialVerifier::verify_computation(n).unwrap();
        assert!(a.commitment().eq_cmr(&b.commitment()));
    }
}

#[test]
fn commitment_ignores_witness_values() {
    let (states, tapes, indices) = trivial_trace(2);
    let term_a = TrivialVerifier::verify_computation(2).unwrap();
    let term_b = TrivialVerifier::verify_computation(2).unwrap();
    let program_a = Program::finalize(term_a, computation256_of(&states, &tapes, &indices))
        .unwrap();
    let zero_states = vec![Value::u1(0), Value::u1(0)];
    let program_b = Program::finalize(
        term_b,
        computation256_of(&zero_states, &tapes, &indices),
    )
    .unwrap();
    assert!(program_a.commitment().eq_cmr(&program_b.commitment()));
}

#[test]
fn trivial_two_step_success() {
    let (states, tapes, indices) = trivial_trace(2);
    assert!(run_trivial(2, &states, &tapes, &indices).is_ok());
}

#[test]
fn trivial_wrong_state_fails_at_state_check() {
    // An all-zero tape keeps the machine in its first state, so a trace
    // claiming it moved must fail exactly at the state check.
    let states = vec![Value::u1(0), Value::u1(1)];
    let tapes = vec![[0u8; 32], [0u8; 32]];
    let indices = vec![one_hot(0), one_hot(1)];
    let r = run_trivial(2, &states, &tapes, &indices);
    match r {
        Err(TuringError::AssertionFailure(c)) => assert_eq!([0u8; 32], c.to_bytes()),
        _ => panic!("expected an assertion failure at the state check"),
    }
}

#[test]
fn trivial_nonaccepting_trace_fails_at_last_check() {
    // A trace that never reaches the accepting state fails exactly at the
    // boundary check of the last configuration.
    let states = vec![Value::u1(0), Value::u1(0)];
    let tapes = vec![[0u8; 32], [0u8; 32]];
    let indices = vec![one_hot(0), one_hot(1)];
    let r = run_trivial(2, &states, &tapes, &indices);
    match r {
        Err(TuringError::AssertionFailure(c)) => assert_eq!([4u8; 32], c.to_bytes()),
        _ => panic!("expected an assertion failure at the accepting check"),
    }
}

#[test]
fn five_step_success() {
    let (states, tapes, indices) = trivial_trace(5);
    assert!(run_trivial(5, &states, &tapes, &indices).is_ok());
}

#[test]
fn five_step_mutated_state_fails_distinguishably() {
    let (mut states, tapes, indices) = trivial_trace(5);
    states[2] = Value::u1(0);
    let r = run_trivial(5, &states, &tapes, &indices);
    match r {
        Err(TuringError::AssertionFailure(c)) => assert_eq!([0u8; 32], c.to_bytes()),
        _ => panic!("expected an assertion failure at the state check"),
    }
}

#[test]
fn five_step_mutated_index_fails_distinguishably() {
    let (states, tapes, mut indices) = trivial_trace(5);
    indices[2] = one_hot(9);
    let r = run_trivial(5, &states, &tapes, &indices);
    match r {
        Err(TuringError::AssertionFailure(c)) => assert_eq!([1u8; 32], c.to_bytes()),
        _ => panic!("expected an assertion failure at the index check"),
    }
}

#[test]
fn five_step_mutated_tape_fails_distinguishably() {
    let (states, mut tapes, indices) = trivial_trace(5);
    tapes[2][17] = 0b00100000;
    let r = run_trivial(5, &states, &tapes, &indices);
    match r {
        Err(TuringError::AssertionFailure(c)) => assert_eq!([2u8; 32], c.to_bytes()),
        _ => panic!("expected an assertion failure at the tape check"),
    }
}

#[test]
fn commitments_match_engine_rules() {
    // The commitment of each combinator agrees with the Simplicity
    // engine's own rules, computed here directly from the engine.
    assert_eq!(
        Cmr::iden().to_byte_array(),
        Term::iden().commitment().to_bytes()
    );
    assert_eq!(
        Cmr::unit().to_byte_array(),
        Term::unit().commitment().to_bytes()
    );
    assert_eq!(
        Cmr::witness().to_byte_array(),
        Term::witness().commitment().to_bytes()
    );
    assert_eq!(
        Cmr::comp(Cmr::iden(), Cmr::unit()).to_byte_array(),
        Term::comp(Term::iden(), Term::unit()).commitment().to_bytes()
    );
    assert_eq!(
        Cmr::pair(Cmr::witness(), Cmr::iden()).to_byte_array(),
        Term::pair(Term::witness(), Term::iden()).commitment().to_bytes()
    );
    assert_eq!(
        Cmr::case(Cmr::unit(), Cmr::iden()).to_byte_array(),
        Term::case(Term::unit(), Term::iden()).commitment().to_bytes()
    );
    assert_eq!(
        Cmr::take(Cmr::iden()).to_byte_array(),
        Term::take(Term::iden()).commitment().to_bytes()
    );
    assert_eq!(
        Cmr::drop(Cmr::iden()).to_byte_array(),
        Term::drop(Term::iden()).commitment().to_bytes()
    );
    assert_eq!(
        Cmr::injl(Cmr::unit()).to_byte_array(),
        Term::injl(Term::unit()).commitment().to_bytes()
    );
    assert_eq!(
        Cmr::injr(Cmr::unit()).to_byte_array(),
        Term::injr(Term::unit()).commitment().to_bytes()
    );
}

#[test]
fn jet_commitment_is_tagged_digest() {
    // A native operation's pinned commitment is the digest of its fixed
    // tag, computed here directly from the hash engine.
    let expected =
        bitcoin_hashes::sha256::Hash::hash(&[0x6a, 0x65, 0x74, 0]).to_byte_array();
    assert_eq!(expected, jet_cmr(TuringJetName::Eq256).to_bytes());

    let expected =
        bitcoin_hashes::sha256::Hash::hash(&[0x6a, 0x65, 0x74, 4]).to_byte_array();
    assert_eq!(expected, jet_cmr(TuringJetName::And256).to_bytes());
}

#[test]
fn finalize_rejects_witness_count_mismatch() {
    let term = TrivialVerifier::verify_computation(2).unwrap();
    let r = Program::finalize(term, Vec::new());
    assert!(matches!(r, Err(TuringError::TypeError)));
}
