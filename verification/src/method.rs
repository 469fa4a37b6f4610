//! The fluent builder test authors use to describe one expectation.

use vstd::prelude::*;
use vstd::string::StringExecFns;

use crate::constraint::{Constraint, Params, Times};
use crate::expectation::Expectation;
use crate::validator::Validator;
use crate::MethodName;

verus! {

/// The first step of describing an expectation: a method name waiting for
/// its call-count policy.
#[must_use]
pub struct Method {
    name: MethodName,
}

impl Method {
    /// The name of the method the expectation will watch.
    pub closed spec fn spec_name(&self) -> MethodName {
        self.name
    }

    pub fn new(name: &str) -> (r: Self)
        ensures
            r.spec_name()@ == name@,
    {
        Method { name: String::from_str(name) }
    }

    /// The method must be called exactly `calls` times.
    pub fn called_times<I, O, V: Validator<I>>(self, calls: i64) -> (r: TrackedMethod<I, O, V>)
        ensures
            r.spec_expectation().spec_name()@ == self.spec_name()@,
            r.spec_expectation().spec_constraints().len() == 1,
            r.spec_expectation().spec_constraints()[0] matches Constraint::Times(t) && {
                &&& t.spec_target() == calls
                &&& t.spec_calls() == 0
                &&& t.spec_remaining() == calls
                &&& t.wf()
            },
            r.spec_expectation().spec_modification() is None,
            r.spec_expectation().spec_return_value() is None,
            calls > i64::MIN ==> r.spec_expectation().can_count(),
            r.spec_expectation().wf(),
    {
        let mut expectation: Expectation<I, O, V> = Expectation::new(self.name.as_str());
        expectation.constrain(Constraint::Times(Times::new(calls)));
        proof {
            if calls > i64::MIN {
                assert forall|i: int|
                    0 <= i < expectation.spec_constraints().len() implies (
                #[trigger] expectation.spec_constraints()[i]).can_count() by {}
            }
            assert forall|i: int|
                0 <= i < expectation.spec_constraints().len() implies (
            #[trigger] expectation.spec_constraints()[i]).wf() by {}
        }
        TrackedMethod { expectation }
    }

    /// The method must never be called.
    pub fn called_never<I, O, V: Validator<I>>(self) -> (r: TrackedMethod<I, O, V>)
        ensures
            r.spec_expectation().spec_name()@ == self.spec_name()@,
            r.spec_expectation().spec_constraints().len() == 1,
            r.spec_expectation().spec_constraints()[0] matches Constraint::Times(t) && {
                &&& t.spec_target() == 0
                &&& t.spec_calls() == 0
                &&& t.spec_remaining() == 0
                &&& t.wf()
            },
            r.spec_expectation().spec_modification() is None,
            r.spec_expectation().spec_return_value() is None,
            r.spec_expectation().can_count(),
            r.spec_expectation().wf(),
    {
        self.called_times(0)
    }

    /// The method must be called exactly once.
    pub fn called_once<I, O, V: Validator<I>>(self) -> (r: TrackedMethod<I, O, V>)
        ensures
            r.spec_expectation().spec_name()@ == self.spec_name()@,
            r.spec_expectation().spec_constraints().len() == 1,
            r.spec_expectation().spec_constraints()[0] matches Constraint::Times(t) && {
                &&& t.spec_target() == 1
                &&& t.spec_calls() == 0
                &&& t.spec_remaining() == 1
                &&& t.wf()
            },
            r.spec_expectation().spec_modification() is None,
            r.spec_expectation().spec_return_value() is None,
            r.spec_expectation().can_count(),
            r.spec_expectation().wf(),
    {
        self.called_times(1)
    }

    /// The method may be called any number of times, including zero.
    ///
    /// No call-count rule is attached at all, so such an expectation can
    /// never fail verification on a count, only on parameter rules; for
    /// era-advancement purposes it is complete from the start.
    pub fn called_any<I, O, V: Validator<I>>(self) -> (r: TrackedMethod<I, O, V>)
        ensures
            r.spec_expectation().spec_name()@ == self.spec_name()@,
            r.spec_expectation().spec_constraints() =~= Seq::<Constraint<I, V>>::empty(),
            r.spec_expectation().spec_modification() is None,
            r.spec_expectation().spec_return_value() is None,
            !r.spec_expectation().has_count_rule(),
            r.spec_expectation().spec_passes(),
            r.spec_expectation().can_count(),
            r.spec_expectation().wf(),
    {
        let expectation: Expectation<I, O, V> = Expectation::new(self.name.as_str());
        TrackedMethod { expectation }
    }
}

/// The second step of describing an expectation: the call-count policy is
/// fixed, and parameter rules, a modification and a return value may still
/// be attached, each call handing the builder back for chaining.
#[must_use]
pub struct TrackedMethod<I, O, V: Validator<I>> {
    expectation: Expectation<I, O, V>,
}

impl<I, O, V: Validator<I>> TrackedMethod<I, O, V> {
    /// The expectation built so far.
    pub closed spec fn spec_expectation(&self) -> Expectation<I, O, V> {
        self.expectation
    }

    /// Attach a validator that judges the parameters of every matching
    /// call; a call it rejects makes the expectation fail for good.
    pub fn with(self, validator: V) -> (r: Self)
        ensures
            ({
                let cs = r.spec_expectation().spec_constraints();
                &&& cs.len() == self.spec_expectation().spec_constraints().len() + 1
                &&& cs.drop_last() == self.spec_expectation().spec_constraints()
                &&& cs.last() matches Constraint::Params(p) && {
                    &&& p.spec_validator() == validator
                    &&& p.spec_is_valid()
                }
            }),
            r.spec_expectation().spec_name() == self.spec_expectation().spec_name(),
            r.spec_expectation().spec_modification() == self.spec_expectation().spec_modification(),
            r.spec_expectation().spec_return_value() == self.spec_expectation().spec_return_value(),
    {
        let mut this = self;
        this.expectation.constrain(Constraint::Params(Params::new(validator)));
        proof {
            assert(this.expectation.spec_constraints().drop_last()
                =~= self.spec_expectation().spec_constraints());
        }
        this
    }

    /// Configure the value written over the caller's parameter once the
    /// rules have judged a matching call; a mutable output argument observed
    /// by the caller of the mocked method reflects it.
    pub fn modifying(self, value: I) -> (r: Self)
        ensures
            r.spec_expectation().spec_modification() == Some(value),
            r.spec_expectation().spec_name() == self.spec_expectation().spec_name(),
            r.spec_expectation().spec_constraints() == self.spec_expectation().spec_constraints(),
            r.spec_expectation().spec_return_value() == self.spec_expectation().spec_return_value(),
    {
        let mut this = self;
        this.expectation.set_modification(value);
        this
    }

    /// Configure the value a returning call of the method hands back.
    pub fn returning(self, value: O) -> (r: Self)
        ensures
            r.spec_expectation().spec_return_value() == Some(value),
            r.spec_expectation().spec_name() == self.spec_expectation().spec_name(),
            r.spec_expectation().spec_constraints() == self.spec_expectation().spec_constraints(),
            r.spec_expectation().spec_modification() == self.spec_expectation().spec_modification(),
    {
        let mut this = self;
        this.expectation.set_return(value);
        this
    }

    /// Surrender the built expectation, to be registered with a store.
    pub fn into_expectation(self) -> (r: Expectation<I, O, V>)
        ensures
            r == self.spec_expectation(),
    {
        self.expectation
    }
}

} // verus!
