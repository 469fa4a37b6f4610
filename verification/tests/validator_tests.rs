//! Tests for the stock validators and the validator capability itself.

use simulacrum::validator::Validator;
use simulacrum::validators::{any, gt, lt, none, passes, Tuple2, Tuple3, Tuple4};

#[test]
fn mod_test_validate() {
    let v = 555;
    assert!(555.validate(&v));
}

#[test]
fn test_partialeq_validate() {
    let v = 555;
    assert!(555.validate(&v));
    assert!(!666.validate(&v));
}

#[test]
fn check_test_validate() {
    let c = passes(|arg: &i32| *arg == 555);
    let v: i32 = 555;
    assert!(c.validate(&v));
}

#[test]
fn compare_test_gt() {
    let c = gt(888);
    let v = 999;
    assert!(c.validate(&v));
}

#[test]
fn compare_test_gt_fail() {
    let c = gt(555);
    let v = 1;
    assert!(!c.validate(&v));
}

#[test]
fn compare_test_lt() {
    let c = lt(10);
    let v = 1;
    assert!(c.validate(&v));
}

#[test]
fn compare_test_lt_fail() {
    let c = lt(10);
    let v = 25;
    assert!(!c.validate(&v));
}

#[test]
fn test_any() {
    let c = any();
    assert!(c.validate(&()));
}

#[test]
fn test_none() {
    let c = none();
    assert!(!c.validate(&()));
}

#[test]
fn test_2_both() {
    let c = Tuple2::new(any(), any());
    assert!(c.validate(&((), ())));
}

#[test]
fn test_2_first() {
    let c = Tuple2::new(any(), none());
    assert!(!c.validate(&((), ())));
}

#[test]
fn test_2_second() {
    let c = Tuple2::new(none(), any());
    assert!(!c.validate(&((), ())));
}

#[test]
fn test_2_neither() {
    let c = Tuple2::new(none(), none());
    assert!(!c.validate(&((), ())));
}

#[test]
fn test_3_all() {
    let c = Tuple3::new(any(), any(), any());
    assert!(c.validate(&((), (), ())));
}

#[test]
fn test_3_fail() {
    let c = Tuple3::new(none(), any(), none());
    assert!(!c.validate(&((), (), ())));
}

#[test]
fn test_4_all() {
    let c = Tuple4::new(any(), any(), any(), any());
    assert!(c.validate(&((), (), (), ())));
}

#[test]
fn test_4_fail() {
    let c = Tuple4::new(any(), none(), any(), none());
    assert!(!c.validate(&((), (), (), ())));
}

#[test]
fn test_tuple_of_comparisons() {
    let c = Tuple2::new(gt(5), lt(3));
    assert!(c.validate(&(10, 1)));
    assert!(!c.validate(&(10, 7)));
}
