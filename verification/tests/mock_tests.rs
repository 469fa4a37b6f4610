//! Tests driving whole mock scenarios through the `Expectations` facade.

use std::rc::Rc;

use simulacrum::constraint::ConstraintError;
use simulacrum::method::Method;
use simulacrum::mock::Expectations;
use simulacrum::store::ConfigError;
use simulacrum::validators::{gt, lt, Either, GreaterThan, LessThan, Trivial};

#[test]
fn mock_test_called_once() {
    let mut e: Expectations<(), (), Trivial> = Expectations::new();
    e.expect(Method::new("spoo").called_once()).unwrap();

    let mut p = ();
    e.was_called("spoo", &mut p);

    assert!(e.verify().is_ok());
}

#[test]
fn mock_test_called_once_fail() {
    let mut e: Expectations<(), (), Trivial> = Expectations::new();

    // "spoo" should have been called once, but was never called
    e.expect(Method::new("spoo").called_once()).unwrap();

    let r = e.verify().unwrap_err();
    assert_eq!(r.method_name, "spoo");
    assert_eq!(r.constraint_err, ConstraintError::CalledTooFewTimes(1));
}

#[test]
fn mock_test_called_twice() {
    let mut e: Expectations<(), (), Trivial> = Expectations::new();
    e.expect(Method::new("nom").called_times(2)).unwrap();

    let mut p = ();
    e.was_called("nom", &mut p);
    e.was_called("nom", &mut p);

    assert!(e.verify().is_ok());
}

#[test]
fn mock_test_called_twice_fail() {
    let mut e: Expectations<(), (), Trivial> = Expectations::new();
    e.expect(Method::new("nom").called_times(2)).unwrap();

    // "nom" should have been called twice, but was only called once
    let mut p = ();
    e.was_called("nom", &mut p);

    let r = e.verify().unwrap_err();
    assert_eq!(r.method_name, "nom");
    assert_eq!(r.constraint_err, ConstraintError::CalledTooFewTimes(1));
}

#[test]
fn mock_test_called_never_pass() {
    let mut e: Expectations<(), (), Trivial> = Expectations::new();
    e.expect(Method::new("blitz").called_never()).unwrap();

    assert!(e.verify().is_ok());
}

#[test]
fn mock_test_called_never_fail() {
    let mut e: Expectations<(), (), Trivial> = Expectations::new();
    e.expect(Method::new("blitz").called_never()).unwrap();

    // "blitz" should never have been called
    let mut p = ();
    e.was_called("blitz", &mut p);

    let r = e.verify().unwrap_err();
    assert_eq!(r.method_name, "blitz");
    assert_eq!(r.constraint_err, ConstraintError::CalledTooManyTimes(1));
}

#[test]
fn mock_test_called_any_zero() {
    let mut e: Expectations<(), (), Trivial> = Expectations::new();
    e.expect(Method::new("mega").called_any()).unwrap();

    assert!(e.verify().is_ok());
}

#[test]
fn mock_test_called_any_two() {
    let mut e: Expectations<(), (), Trivial> = Expectations::new();
    e.expect(Method::new("mega").called_any()).unwrap();

    let mut p = ();
    e.was_called("mega", &mut p);
    e.was_called("mega", &mut p);

    assert!(e.verify().is_ok());
}

#[test]
fn mock_test_param() {
    let mut e: Expectations<i32, (), GreaterThan<i32>> = Expectations::new();
    e.expect(Method::new("doog").called_once().with(gt(5))).unwrap();

    let mut p = 10;
    e.was_called("doog", &mut p);

    assert!(e.verify().is_ok());
}

#[test]
fn mock_test_param_fail() {
    let mut e: Expectations<i32, (), GreaterThan<i32>> = Expectations::new();
    e.expect(Method::new("doog").called_once().with(gt(5))).unwrap();

    // "doog"'s parameter was not > 5
    let mut p = 1;
    e.was_called("doog", &mut p);

    let r = e.verify().unwrap_err();
    assert_eq!(r.method_name, "doog");
    assert!(matches!(r.constraint_err, ConstraintError::MismatchedParams(_, _)));
}

#[test]
fn mock_test_returning() {
    let mut e: Expectations<(), i32, Trivial> = Expectations::new();
    e.expect(Method::new("boye").called_any().returning(5)).unwrap();

    let r = e.was_called_returning("boye", ());

    assert_eq!(r.unwrap(), 5);
    assert!(e.verify().is_ok());
}

#[test]
fn mock_test_returning_no_matches() {
    let mut e: Expectations<(), i32, Trivial> = Expectations::new();

    // Not expecting "boye" here, so when it's called, no value can be returned
    let r = e.was_called_returning("boye", ());

    assert!(matches!(r, Err(ConfigError::NoExpectationMatched(_))));
}

#[test]
fn mock_test_modifications() {
    let mut e: Expectations<i32, (), Trivial> = Expectations::new();
    e.expect(Method::new("dawg").called_any().modifying(3)).unwrap();

    let mut i = 2;
    e.was_called("dawg", &mut i);

    assert_eq!(i, 3);
    assert!(e.verify().is_ok());
}

#[test]
fn mock_test_then() {
    let mut e: Expectations<i32, (), Either<GreaterThan<i32>, LessThan<i32>>> =
        Expectations::new();
    e.expect(Method::new("fren").called_once().with(Either::First(gt(5)))).unwrap();
    e.new_era();
    e.expect(Method::new("fren").called_once().with(Either::Second(lt(3)))).unwrap();

    let mut p = 10;
    e.was_called("fren", &mut p); // Matches first era, completing it
    let mut p = 1;
    e.was_called("fren", &mut p); // Matches second era, completing it

    assert!(e.verify().is_ok());
}

#[test]
fn mock_test_then_never() {
    // `called_never()` is only enforced until the era is completed
    let mut e: Expectations<(), (), Trivial> = Expectations::new();
    e.expect(Method::new("bruh").called_never()).unwrap();
    e.expect(Method::new("fren").called_once()).unwrap();
    e.new_era();
    e.expect(Method::new("bruh").called_once()).unwrap();

    let mut p = ();
    e.was_called("fren", &mut p); // Matches first era, completing it
    e.was_called("bruh", &mut p); // Matches second era, completing it

    assert!(e.verify().is_ok());
}

#[test]
fn mock_test_then_partial_fail() {
    let mut e: Expectations<i32, (), Either<GreaterThan<i32>, LessThan<i32>>> =
        Expectations::new();
    e.expect(Method::new("fren").called_once().with(Either::First(gt(5)))).unwrap();
    e.new_era();
    e.expect(Method::new("fren").called_times(2).with(Either::Second(lt(3)))).unwrap();

    let mut p = 10;
    e.was_called("fren", &mut p); // Matches first era, completing it
    let mut p = 1;
    e.was_called("fren", &mut p); // Matches second era, but still incomplete

    // "fren" was expected to be called twice in the second era
    let r = e.verify().unwrap_err();
    assert_eq!(r.method_name, "fren");
    assert_eq!(r.constraint_err, ConstraintError::CalledTooFewTimes(1));
}

#[test]
fn mock_test_then_multi_call() {
    let mut e: Expectations<(), (), Trivial> = Expectations::new();

    // These expectations can be called in any order
    e.expect(Method::new("eh").called_once()).unwrap();
    e.expect(Method::new("donk").called_times(2)).unwrap();

    // These expectations are called afterwards in any order
    e.new_era();
    e.expect(Method::new("calxx").called_times(3)).unwrap();
    e.expect(Method::new("mer").called_once()).unwrap();

    let mut p = ();
    e.was_called("donk", &mut p);
    e.was_called("eh", &mut p);
    e.was_called("donk", &mut p); // Completes first era
    e.was_called("calxx", &mut p);
    e.was_called("mer", &mut p);
    e.was_called("calxx", &mut p);
    e.was_called("calxx", &mut p); // Completes second era

    assert!(e.verify().is_ok());
}

#[test]
fn mock_test_then_wrong_order_fail() {
    let mut e: Expectations<(), (), Trivial> = Expectations::new();

    // These expectations can be called in any order
    e.expect(Method::new("eh").called_once()).unwrap();
    e.expect(Method::new("donk").called_once()).unwrap();

    // These expectations are called afterwards in any order
    e.new_era();
    e.expect(Method::new("calxx").called_once()).unwrap();
    e.expect(Method::new("mer").called_once()).unwrap();

    let mut p = ();
    e.was_called("mer", &mut p); // No matching expectations
    e.was_called("calxx", &mut p); // No matching expectations
    e.was_called("donk", &mut p);
    e.was_called("eh", &mut p); // Completes first era

    // The second era was never completed
    let r = e.verify().unwrap_err();
    assert_eq!(r.constraint_err, ConstraintError::CalledTooFewTimes(1));
}

#[test]
fn mock_test_then_specific() {
    let mut e: Expectations<(), (), Trivial> = Expectations::new();

    e.expect(Method::new("eh").called_once()).unwrap();
    e.new_era();
    e.expect(Method::new("donk").called_once()).unwrap();
    e.new_era();
    e.expect(Method::new("mer").called_once()).unwrap();
    e.expect(Method::new("eh").called_once()).unwrap();

    let mut p = ();
    e.was_called("eh", &mut p); // Completes first era
    e.was_called("donk", &mut p); // Completes second era
    e.was_called("eh", &mut p);
    e.was_called("mer", &mut p); // Completes third era

    assert!(e.verify().is_ok());
}

#[test]
fn mock_test_empty_era_leading() {
    let mut e: Expectations<(), (), Trivial> = Expectations::new();

    // Create an empty era at the start
    e.new_era();
    e.expect(Method::new("eh").called_once()).unwrap();

    let mut p = ();
    e.was_called("eh", &mut p); // Completes first and second eras

    assert!(e.verify().is_ok());
}

#[test]
fn mock_test_empty_era_middle() {
    let mut e: Expectations<(), (), Trivial> = Expectations::new();

    // Create an empty era in the middle
    e.expect(Method::new("eh").called_once()).unwrap();
    e.new_era();
    e.new_era();
    e.expect(Method::new("eh").called_once()).unwrap();

    let mut p = ();
    e.was_called("eh", &mut p); // Completes first and second eras
    e.was_called("eh", &mut p); // Completes third era

    assert!(e.verify().is_ok());
}

#[test]
fn mock_test_empty_era_end() {
    let mut e: Expectations<(), (), Trivial> = Expectations::new();

    e.expect(Method::new("eh").called_once()).unwrap();
    // Create an empty era at the end
    e.new_era();

    let mut p = ();
    e.was_called("eh", &mut p); // Completes first and second eras

    assert!(e.verify().is_ok());
}

#[test]
fn mock_test_one_expectation_per_era() {
    let mut e: Expectations<(), (), Trivial> = Expectations::new();

    e.expect(Method::new("eh").called_never()).unwrap();
    // Only one expectation may be registered for "eh" in a given era
    let result = e.expect(Method::new("eh").called_never());
    assert!(result.is_err());
}

#[test]
fn mock_test_eras_complete_eagerly() {
    let mut e: Expectations<(), (), Trivial> = Expectations::new();

    // Expectations
    e.expect(Method::new("c").called_any()).unwrap();
    e.new_era();
    e.expect(Method::new("d").called_once()).unwrap();

    // Calls
    let mut p = ();
    e.was_called("c", &mut p); // Completes first era
    e.was_called("d", &mut p); // Completes second era

    assert!(e.verify().is_ok());
}

#[test]
fn test_calls_ignored_after_final_era_completes() {
    let mut e: Expectations<(), (), Trivial> = Expectations::new();

    // Expectations
    e.expect(Method::new("c").called_once()).unwrap();
    e.new_era();

    // Calls
    let mut p = ();
    e.was_called("c", &mut p); // Completes first era
    e.was_called("c", &mut p); // Doesn't matter, all eras are complete already

    assert!(e.verify().is_ok());
}

#[test]
fn test_can_accept_non_send() {
    let mut e: Expectations<Rc<i32>, (), Trivial> = Expectations::new();
    e.expect(Method::new("ok").called_once()).unwrap();

    let mut test_rc = Rc::new(777);
    e.was_called("ok", &mut test_rc);

    assert!(e.verify().is_ok());
}

#[test]
fn test_duplicate_registration_reports_name() {
    let mut e: Expectations<(), (), Trivial> = Expectations::new();

    e.expect(Method::new("eh").called_never()).unwrap();
    match e.expect(Method::new("eh").called_never()) {
        Err(ConfigError::DuplicateExpectation(name)) => assert_eq!(name, "eh"),
        _ => panic!("a second registration in the same era must be refused"),
    }

    // A new era makes the same name registrable again.
    e.new_era();
    assert!(e.expect(Method::new("eh").called_once()).is_ok());
}

#[test]
fn test_returning_uses_last_matched() {
    let mut e: Expectations<(), i32, Trivial> = Expectations::new();
    e.expect(Method::new("boye").called_times(2).returning(7)).unwrap();

    assert_eq!(e.was_called_returning("boye", ()).unwrap(), 7);
    assert_eq!(e.was_called_returning("boye", ()).unwrap(), 7);
    assert!(e.verify().is_ok());
}

#[test]
fn test_returning_without_behavior_is_refused() {
    let mut e: Expectations<(), i32, Trivial> = Expectations::new();
    e.expect(Method::new("boye").called_once()).unwrap();

    let r = e.was_called_returning("boye", ());

    assert!(matches!(r, Err(ConfigError::NoReturnBehavior(_))));
}

#[test]
fn test_verify_is_idempotent() {
    let mut e: Expectations<(), (), Trivial> = Expectations::new();
    e.expect(Method::new("eh").called_times(2)).unwrap();

    let mut p = ();
    e.was_called("eh", &mut p);

    let first = e.verify();
    let second = e.verify();
    assert_eq!(first, second);
    assert!(first.is_err());

    e.was_called("eh", &mut p);
    assert!(e.verify().is_ok());
    assert!(e.verify().is_ok());
}
