//! The validator capability: pluggable predicates over call parameters.

use vstd::prelude::*;
use vstd::std_specs::cmp::PartialEqSpec;

verus! {

/// Renders a value for a diagnostic message without demanding `Debug` of its
/// type.
///
/// Relies on `debugit::DebugIt`, whose `Debug` impl exists for every type: the
/// rendering depends on the wrapped value alone (on toolchains without
/// specialization it is a fixed placeholder).
#[verifier::external_body]
pub(crate) fn debug_text<T>(value: &T) -> String {
    format!("{:?}", debugit::DebugIt(value))
}

/// A pluggable predicate over a call's parameter value.
///
/// To use one, hand it to [`TrackedMethod::with`](crate::method::TrackedMethod::with),
/// which wraps it in a [`Params`](crate::constraint::Params) constraint.
///
/// `spec_valid` delimits which outcomes `validate` may reach for a given
/// parameter; a deterministic validator pins the outcome down exactly.
pub trait Validator<I> {
    /// Which outcomes this validator may reach for the given parameter.
    spec fn spec_valid(&self, param: &I, outcome: bool) -> bool;

    /// Judge the given parameter value: `true` accepts it.
    fn validate(&self, param: &I) -> (r: bool)
        ensures
            self.spec_valid(param, r),
    ;

    /// Describe the pass condition, for diagnostics.
    fn print(&self) -> String;
}

/// Every value of a type that can be compared for equality is itself a
/// validator: it accepts exactly the parameters equal to it.
impl<I: PartialEq> Validator<I> for I {
    open spec fn spec_valid(&self, param: &I, outcome: bool) -> bool {
        I::obeys_eq_spec() ==> outcome == param.eq_spec(self)
    }

    fn validate(&self, param: &I) -> bool {
        param.eq(self)
    }

    fn print(&self) -> String {
        debug_text(self)
    }
}

} // verus!
