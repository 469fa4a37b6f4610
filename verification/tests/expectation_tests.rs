//! Tests for single expectations.

use simulacrum::constraint::{
    AlwaysFail, AlwaysPass, Constraint, ConstraintError, ConstraintMock,
};
use simulacrum::expectation::{Expectation, ExpectationEra};
use simulacrum::validators::Trivial;

#[test]
fn expectation_test_new() {
    let e: Expectation<(), (), Trivial> = Expectation::new("foo");

    assert_eq!(e.name().as_str(), "foo", "Name of Constraint should be `foo`");
    assert_eq!(e.constraint_count(), 0, "Number of Constraints should be 0");
    assert!(!e.has_return(), "Return Closure Should Not Exist");
}

#[test]
fn expectation_test_constrain() {
    let mut e: Expectation<(), (), Trivial> = Expectation::new("test");

    e.constrain(Constraint::AlwaysPass(AlwaysPass));

    assert_eq!(e.constraint_count(), 1, "Number of Constraints should be 1");
}

#[test]
fn expectation_test_set_return() {
    let mut e: Expectation<(), i32, Trivial> = Expectation::new("yaz");

    e.set_return(5);

    assert!(e.has_return(), "Return Closure Should Exist");
    assert_eq!(e.return_value_for(()), 5, "Return Closure Should return 5");
}

#[test]
fn mod_test_new() {
    let e: Expectation<(), (), Trivial> = Expectation::new("foo");

    assert_eq!(e.name().as_str(), "foo", "Name of Constraint should be `foo`");
    assert_eq!(e.constraint_count(), 0, "Number of Constraints should be 0");
    assert!(!e.has_return(), "Return Behavior Should Not Exist");
    assert!(!e.has_modification(), "Modification Behavior Should Not Exist");
}

#[test]
fn mod_test_handle_call() {
    let mut e: Expectation<(), (), Trivial> = Expectation::new("foo");
    let mut m = ConstraintMock::new();
    m.expect_handle_call();
    e.constrain(Constraint::Mock(m));

    let mut params = ();
    e.handle_call(&mut params);

    // The same forwarding, observed directly on the constraint:
    let mut m = ConstraintMock::new();
    m.expect_handle_call();
    assert!(!m.satisfied());
    let mut c: Constraint<(), Trivial> = Constraint::Mock(m);
    c.handle_call(&());
    match c {
        Constraint::Mock(m) => assert!(m.satisfied()),
        _ => unreachable!(),
    }
}

#[test]
fn mod_test_constrain() {
    let mut e: Expectation<(), (), Trivial> = Expectation::new("test");

    e.constrain(Constraint::AlwaysPass(AlwaysPass));

    assert_eq!(e.constraint_count(), 1, "Number of Constraints should be 1");
}

#[test]
fn mod_test_set_return() {
    let mut e: Expectation<(), i32, Trivial> = Expectation::new("yaz");

    e.set_return(5);

    assert!(e.has_return(), "Return Closure Should Exist");
    assert_eq!(e.return_value_for(()), 5, "Return Closure Should return 5");
}

#[test]
fn test_return() {
    let mut e: Expectation<(), i32, Trivial> = Expectation::new("yaz");

    e.set_return(5);

    assert!(e.has_return(), "Return Closure Should Exist");
    assert_eq!(e.return_value_for(()), 5, "Return Closure Should return 5");
}

#[test]
fn test_set_modification() {
    let mut e: Expectation<(), (), Trivial> = Expectation::new("bing");

    e.set_modification(());

    assert!(e.has_modification(), "Modification Closure Should Exist");
}

#[test]
#[should_panic]
fn test_return_no_closure_given() {
    let e: Expectation<(), i32, Trivial> = Expectation::new("yaz");

    // Did not set the return here

    // Panic: no return value was configured, so we don't know what to return
    e.return_value_for(());
}

#[test]
fn mod_test_verify_pass() {
    let mut e: Expectation<(), (), Trivial> = Expectation::new("zonk");

    e.constrain(Constraint::AlwaysPass(AlwaysPass));
    e.constrain(Constraint::AlwaysPass(AlwaysPass));
    let r = e.verify();

    assert!(r.is_ok(), "Expectation should pass");
}

#[test]
fn mod_test_verify_fail() {
    let mut e: Expectation<(), (), Trivial> = Expectation::new("boop");

    e.constrain(Constraint::AlwaysPass(AlwaysPass));
    e.constrain(Constraint::AlwaysFail(AlwaysFail)); // Will cause Expectation to fail
    let r = e.verify();

    assert!(r.is_err(), "Expectation should fail");
    let r = r.unwrap_err();
    assert_eq!(r.method_name, "boop", "Expectation error should have the correct method name");
    assert_eq!(
        r.constraint_err,
        ConstraintError::AlwaysFail,
        "Expectation error should contain the correct Constraint error"
    );
}

#[test]
fn test_modification_applied_after_rules() {
    let mut e: Expectation<i32, (), Trivial> = Expectation::new("w");
    e.constrain(Constraint::Times(simulacrum::constraint::Times::new(1)));
    e.set_modification(3);

    let mut params = 2;
    e.handle_call(&mut params);

    assert_eq!(params, 3, "the caller observes the modified value");
    assert!(e.verify().is_ok());
}

#[test]
fn test_era_collects_ids() {
    let mut era = ExpectationEra::new();
    assert_eq!(era.len(), 0);

    era.add(4);
    era.add(7);

    assert_eq!(era.len(), 2);
    assert_eq!(era.id_at(0), 4);
    assert_eq!(era.id_at(1), 7);
}
