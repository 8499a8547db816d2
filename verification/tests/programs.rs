//! Tests of finalization and the witness binding order: witness
//! placeholders are bound in left-to-right structural order, one value
//! per placeholder, including placeholders in branches that execution
//! never takes.

use simple_turing::eval::Program;
use simple_turing::term::Term;
use simple_turing::value::Value;

#[test]
fn witness_binding_order_in_pairs() {
    let term = Term::pair(Term::witness(), Term::witness());
    let program = Program::finalize(term, vec![Value::u1(0), Value::u1(1)]).unwrap();
    let out = program.execute(&Value::Unit).unwrap();
    assert!(out.eq_value(&Value::prod(Value::u1(0), Value::u1(1))));
}

#[test]
fn witness_binding_order_through_composition() {
    let term = Term::comp(Term::witness(), Term::pair(Term::iden(), Term::witness()));
    let program = Program::finalize(term, vec![Value::u1(1), Value::u1(0)]).unwrap();
    let out = program.execute(&Value::Unit).unwrap();
    assert!(out.eq_value(&Value::prod(Value::u1(1), Value::u1(0))));
}

#[test]
fn witness_in_untaken_branch_still_bound() {
    // cond places its false branch structurally first, so the first
    // witness value belongs to it even when execution takes the true
    // branch.
    let term = Term::cond(Term::witness(), Term::witness());
    let program = Program::finalize(term, vec![Value::u1(0), Value::u1(1)]).unwrap();
    let out = program.execute(&Value::prod(Value::u1(1), Value::Unit)).unwrap();
    assert!(out.eq_value(&Value::u1(1)));
    let out = program.execute(&Value::prod(Value::u1(0), Value::Unit)).unwrap();
    assert!(out.eq_value(&Value::u1(0)));
}
