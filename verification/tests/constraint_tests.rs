//! Tests for the individual constraint rules.

use simulacrum::constraint::{
    AlwaysFail, AlwaysPass, Constraint, ConstraintError, Params, Times,
};
use simulacrum::validators::{any, none, passes, Trivial};

#[test]
fn always_test_always_pass() {
    let c: AlwaysPass = AlwaysPass;

    let r = c.verify();

    assert!(r.is_ok(), "Constraint should always pass");
}

#[test]
fn always_test_always_fail() {
    let c = AlwaysFail;

    let r = c.verify();

    assert!(r.is_err(), "Constraint should always fail");
    assert_eq!(
        r.unwrap_err(),
        ConstraintError::AlwaysFail,
        "Constraint should return the correct error"
    );
}

#[test]
fn constraint_test_always_pass() {
    let c: Constraint<(), Trivial> = Constraint::AlwaysPass(AlwaysPass);

    let r = c.verify();

    assert!(r.is_ok(), "Constraint should always pass");
}

#[test]
fn constraint_test_always_fail() {
    let c: Constraint<(), Trivial> = Constraint::AlwaysFail(AlwaysFail);

    let r = c.verify();

    assert!(r.is_err(), "Constraint should always fail");
    assert_eq!(
        r.unwrap_err(),
        ConstraintError::AlwaysFail,
        "Constraint should return the correct error"
    );
}

#[test]
fn constraint_test_times_pass() {
    let c: Constraint<(), Trivial> = Constraint::Times(Times::new(0));

    let r = c.verify();

    assert!(r.is_ok());
}

#[test]
fn constraint_test_times_fail_called_fewer() {
    let c: Constraint<(), Trivial> = Constraint::Times(Times::new(1));

    let r = c.verify();

    assert!(r.is_err(), "Constraint should fail");
    assert_eq!(
        r.unwrap_err(),
        ConstraintError::CalledTooFewTimes(1),
        "Constraint should return the correct error"
    );
}

#[test]
fn constraint_test_times_fail_called_more() {
    let c: Constraint<(), Trivial> = Constraint::Times(Times::new(-1));

    let r = c.verify();

    assert!(r.is_err(), "Constraint should fail");
    assert_eq!(
        r.unwrap_err(),
        ConstraintError::CalledTooManyTimes(1),
        "Constraint should return the correct error"
    );
}

#[test]
fn constraint_test_params_pass() {
    let c: Constraint<(), Trivial> = Constraint::Params(Params::new(any()));

    let r = c.verify();

    assert!(r.is_ok(), "Constraint should pass");
}

#[test]
fn test_params_fail() {
    let mut c: Constraint<(), Trivial> = Constraint::Params(Params::new(none()));

    c.handle_call(&());
    let r = c.verify();

    assert!(r.is_err(), "Constraint should fail");
}

#[test]
fn times_test_times_pass() {
    let c = Times::new(0);

    let r = c.verify();

    assert!(r.is_ok());
}

#[test]
fn times_test_times_fail_called_fewer() {
    let c = Times::new(1);

    let r = c.verify();

    assert!(r.is_err(), "Constraint should fail");
    assert_eq!(
        r.unwrap_err(),
        ConstraintError::CalledTooFewTimes(1),
        "Constraint should return the correct error"
    );
}

#[test]
fn times_test_times_fail_called_more() {
    let c = Times::new(-1);

    let r = c.verify();

    assert!(r.is_err(), "Constraint should fail");
    assert_eq!(
        r.unwrap_err(),
        ConstraintError::CalledTooManyTimes(1),
        "Constraint should return the correct error"
    );
}

#[test]
fn params_test_new() {
    let c: Params<(), Trivial> = Params::new(none());

    let r = c.verify();

    assert!(r.is_ok(), "Constraint should pass after being created");
}

#[test]
fn params_test_handle_call_pass() {
    // Validator approves of any input
    let mut c: Params<(), Trivial> = Params::new(any());

    c.handle_call(&());
    let r = c.verify();

    assert!(r.is_ok(), "Constraint should pass");
}

#[test]
fn params_test_handle_call_fail() {
    // Validator disapproves of any input
    let mut c: Params<(), Trivial> = Params::new(none());

    c.handle_call(&());
    let r = c.verify();

    assert!(r.is_err(), "Constraint should fail");
}

#[test]
fn params_test_handle_call_good_then_bad() {
    // Validator closure approves input over 5
    let mut c = Params::new(passes(|arg: &i32| *arg > 5));

    c.handle_call(&10); // Good
    c.handle_call(&3); // Bad
    let r = c.verify();

    assert!(r.is_err(), "Constraint should fail");
}

#[test]
fn params_test_handle_call_bad_then_good() {
    // Validator closure approves input over 5
    let mut c = Params::new(passes(|arg: &i32| *arg > 5));

    c.handle_call(&3); // Bad
    c.handle_call(&10); // Good
    let r = c.verify();

    assert!(r.is_err(), "Constraint should fail");
}

#[test]
fn test_times_counts_down_to_pass() {
    let mut c = Times::new(2);

    c.handle_call();
    c.handle_call();
    let r = c.verify();

    assert!(r.is_ok(), "Exactly as many calls as expected should pass");
}

#[test]
fn test_times_overshoot_reports_excess() {
    let mut c = Times::new(3);

    for _ in 0..5 {
        c.handle_call();
    }
    let r = c.verify();

    assert_eq!(r.unwrap_err(), ConstraintError::CalledTooManyTimes(2));
}
