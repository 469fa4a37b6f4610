//! An expectation-tracking engine for building hand-written test doubles.
//!
//! A mock object owns an [`Expectations`](mock::Expectations) value and
//! registers one [`Expectation`](expectation::Expectation) per mocked method:
//! how many times the method should be called, what its parameters must look
//! like, what value it returns, and how it rewrites an output parameter.
//! Expectations are grouped into eras: every expectation of an era must be
//! satisfied before the expectations of the next era are considered.
//!
//! The engine is monomorphic per store: all methods tracked by one store share
//! one parameter type `I`, one output type `O` and one validator type `V`.
//! A mock for a trait whose methods differ in shape wraps the per-method
//! argument tuples in one enum and hands that enum to the store.

use vstd::prelude::*;

pub mod constraint;
pub mod expectation;
pub mod method;
pub mod mock;
pub mod store;
pub mod text;
pub mod validator;
pub mod validators;

verus! {

/// The name of a mocked method, as the mock's author spelled it.
pub type MethodName = String;

/// Identifies one registered expectation inside its store.
pub type ExpectationId = usize;

} // verus!
