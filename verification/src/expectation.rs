//! One method's expected behavior: its rules, side effect and return value.

use vstd::prelude::*;
use vstd::pervasive::cloned;
use vstd::string::StringExecFns;

use crate::constraint::{Constraint, ConstraintError, ConstraintResult};
use crate::validator::Validator;
use crate::{ExpectationId, MethodName};

verus! {

/// The failure an expectation reports: the failing rule's error, together
/// with the name of the method the expectation watches.
#[derive(Clone, Debug, PartialEq)]
pub struct ExpectationError {
    pub constraint_err: ConstraintError,
    pub method_name: MethodName,
}

impl ExpectationError {
    /// The text shown to the user: the method name, and the failure.
    pub open spec fn spec_message(&self) -> Seq<char> {
        self.method_name@ + ": "@ + self.constraint_err.spec_message()
    }

    /// Render this failure for the user.
    pub fn message(&self) -> (r: String)
        ensures
            r@ == self.spec_message(),
    {
        self.method_name.clone().concat(": ").concat(self.constraint_err.message().as_str())
    }
}

/// What verifying an expectation (or a whole store) reports.
pub type ExpectationResult = Result<(), ExpectationError>;

/// An expectation that a method must be called in a certain way.
///
/// It carries the rules every matching call is checked against, an optional
/// value written over the caller's parameter once the rules have run, and an
/// optional value handed back when the mocked method must return something.
pub struct Expectation<I, O, V: Validator<I>> {
    name: MethodName,
    constraints: Vec<Constraint<I, V>>,
    modification: Option<I>,
    return_value: Option<O>,
}

impl<I, O, V: Validator<I>> Expectation<I, O, V> {
    /// The name of the method this expectation watches.
    pub closed spec fn spec_name(&self) -> MethodName {
        self.name
    }

    /// The rules every matching call is checked against, in the order they
    /// were attached.
    pub closed spec fn spec_constraints(&self) -> Seq<Constraint<I, V>> {
        self.constraints@
    }

    /// The value written over the caller's parameter, if one was configured.
    pub closed spec fn spec_modification(&self) -> Option<I> {
        self.modification
    }

    /// The value handed back for a returning call, if one was configured.
    pub closed spec fn spec_return_value(&self) -> Option<O> {
        self.return_value
    }

    /// Every count rule can still count one more call.
    pub open spec fn can_count(&self) -> bool {
        forall|i: int|
            0 <= i < self.spec_constraints().len() ==> (#[trigger] self.spec_constraints()[i]).can_count()
    }

    /// The count bookkeeping of every rule is intact.
    pub open spec fn wf(&self) -> bool {
        forall|i: int|
            0 <= i < self.spec_constraints().len() ==> (#[trigger] self.spec_constraints()[i]).wf()
    }

    /// Whether every rule passes verification in the current state.
    pub open spec fn spec_passes(&self) -> bool {
        forall|i: int|
            0 <= i < self.spec_constraints().len() ==> (#[trigger] self.spec_constraints()[i]).spec_passes()
    }

    /// How one matching call takes an expectation from its old state to its
    /// new one: each rule absorbs the call, everything else is unchanged.
    pub open spec fn spec_handles_call(pre: Self, post: Self, params: I) -> bool {
        &&& post.spec_name() == pre.spec_name()
        &&& post.spec_modification() == pre.spec_modification()
        &&& post.spec_return_value() == pre.spec_return_value()
        &&& post.spec_constraints().len() == pre.spec_constraints().len()
        &&& forall|i: int|
            0 <= i < pre.spec_constraints().len() ==> Constraint::spec_handles(
                #[trigger] pre.spec_constraints()[i],
                post.spec_constraints()[i],
                &params,
            )
    }

    /// Which failures `verify` may report in this state: the error of the
    /// first failing rule, in declaration order, under this method's name.
    pub open spec fn spec_error_for(&self, e: ExpectationError) -> bool {
        &&& e.method_name == self.spec_name()
        &&& exists|i: int|
            {
                &&& 0 <= i < self.spec_constraints().len()
                &&& !(#[trigger] self.spec_constraints()[i]).spec_passes()
                &&& forall|j: int|
                    0 <= j < i ==> (#[trigger] self.spec_constraints()[j]).spec_passes()
                &&& self.spec_constraints()[i].spec_reports(Err(e.constraint_err))
            }
    }

    /// The call-count policy: an expectation whose single rule expects a
    /// certain number of calls verifies successfully exactly when it was
    /// matched exactly that often. `called_never` is this policy with a
    /// count of zero, `called_once` with a count of one.
    pub proof fn lemma_call_count_policy(&self)
        requires
            self.spec_constraints().len() == 1,
            self.spec_constraints()[0] matches Constraint::Times(t) && t.wf(),
        ensures
            self.spec_constraints()[0] matches Constraint::Times(t) ==> (self.spec_passes()
                <==> t.spec_calls() == t.spec_target()),
    {
        assert forall|i: int|
            0 <= i < self.spec_constraints().len() && self.spec_constraints()[0].spec_passes()
            implies (#[trigger] self.spec_constraints()[i]).spec_passes() by {}
        assert(self.spec_passes() ==> self.spec_constraints()[0].spec_passes());
        if let Constraint::Times(t) = self.spec_constraints()[0] {
            t.lemma_remaining_tracks_calls();
        }
    }

    /// Whether any of the attached rules is a call-count rule.
    ///
    /// `called_any` builds an expectation without one.
    pub open spec fn has_count_rule(&self) -> bool {
        exists|i: int|
            0 <= i < self.spec_constraints().len() && (#[trigger] self.spec_constraints()[i])
                matches Constraint::Times(_)
    }

    /// An expectation without a call-count rule passes its count check no
    /// matter how often it was called: whatever failure it reports, the
    /// failure is never about a call count.
    pub proof fn lemma_no_count_rule_passes_count_check(&self, err: ExpectationError)
        requires
            !self.has_count_rule(),
            self.spec_error_for(err),
        ensures
            !(err.constraint_err matches ConstraintError::CalledTooFewTimes(_)),
            !(err.constraint_err matches ConstraintError::CalledTooManyTimes(_)),
    {
        let i = choose|i: int|
            {
                &&& 0 <= i < self.spec_constraints().len()
                &&& !(#[trigger] self.spec_constraints()[i]).spec_passes()
                &&& forall|j: int|
                    0 <= j < i ==> (#[trigger] self.spec_constraints()[j]).spec_passes()
                &&& self.spec_constraints()[i].spec_reports(Err(err.constraint_err))
            };
        assert(!(self.spec_constraints()[i] matches Constraint::Times(_)));
    }

    /// Absorbing calls neither creates nor removes call-count rules, so an
    /// expectation built by `called_any` stays free of them for good.
    pub proof fn lemma_handles_preserves_count_rules(pre: Self, post: Self, params: I)
        requires
            Self::spec_handles_call(pre, post, params),
        ensures
            post.has_count_rule() == pre.has_count_rule(),
    {
        if pre.has_count_rule() {
            let i = choose|i: int|
                0 <= i < pre.spec_constraints().len() && (#[trigger] pre.spec_constraints()[i])
                    matches Constraint::Times(_);
            assert(Constraint::spec_handles(
                pre.spec_constraints()[i],
                post.spec_constraints()[i],
                &params,
            ));
            assert(post.spec_constraints()[i] matches Constraint::Times(_));
        }
        if post.has_count_rule() {
            let i = choose|i: int|
                0 <= i < post.spec_constraints().len() && (#[trigger] post.spec_constraints()[i])
                    matches Constraint::Times(_);
            assert(Constraint::spec_handles(
                pre.spec_constraints()[i],
                post.spec_constraints()[i],
                &params,
            ));
            assert(pre.spec_constraints()[i] matches Constraint::Times(_));
        }
    }

    /// Absorbing a call keeps the count bookkeeping of every rule intact.
    pub proof fn lemma_handles_call_wf(pre: Self, post: Self, params: I)
        requires
            Self::spec_handles_call(pre, post, params),
        ensures
            pre.wf() ==> post.wf(),
    {
        if pre.wf() {
            assert forall|i: int|
                0 <= i < post.spec_constraints().len() implies (
            #[trigger] post.spec_constraints()[i]).wf() by {
                assert(Constraint::spec_handles(
                    pre.spec_constraints()[i],
                    post.spec_constraints()[i],
                    &params,
                ));
                assert(pre.spec_constraints()[i].wf());
            }
        }
    }

    pub fn new(name: &str) -> (r: Self)
        ensures
            r.spec_name()@ == name@,
            r.spec_constraints() =~= Seq::<Constraint<I, V>>::empty(),
            r.spec_modification() is None,
            r.spec_return_value() is None,
    {
        Expectation {
            name: String::from_str(name),
            constraints: Vec::new(),
            modification: None,
            return_value: None,
        }
    }

    /// The name of the method this expectation watches.
    pub fn name(&self) -> (r: &MethodName)
        ensures
            r == self.spec_name(),
    {
        &self.name
    }

    /// Whether this expectation watches the method with the given name.
    pub fn name_matches(&self, name: &MethodName) -> (r: bool)
        ensures
            r == (self.spec_name()@ == name@),
    {
        self.name.eq(name)
    }

    /// How many rules are attached.
    pub fn constraint_count(&self) -> (r: usize)
        ensures
            r == self.spec_constraints().len(),
    {
        self.constraints.len()
    }

    /// Whether a return value was configured.
    pub fn has_return(&self) -> (r: bool)
        ensures
            r == (self.spec_return_value() is Some),
    {
        self.return_value.is_some()
    }

    /// Whether a parameter modification was configured.
    pub fn has_modification(&self) -> (r: bool)
        ensures
            r == (self.spec_modification() is Some),
    {
        self.modification.is_some()
    }

    /// Attach one more rule; rules are checked in the order they arrive.
    pub fn constrain(&mut self, constraint: Constraint<I, V>)
        ensures
            final(self).spec_constraints() == old(self).spec_constraints().push(constraint),
            final(self).spec_name() == old(self).spec_name(),
            final(self).spec_modification() == old(self).spec_modification(),
            final(self).spec_return_value() == old(self).spec_return_value(),
    {
        self.constraints.push(constraint);
    }

    /// Configure the value written over the caller's parameter after the
    /// rules have judged each matching call.
    pub fn set_modification(&mut self, value: I)
        ensures
            final(self).spec_modification() == Some(value),
            final(self).spec_name() == old(self).spec_name(),
            final(self).spec_constraints() == old(self).spec_constraints(),
            final(self).spec_return_value() == old(self).spec_return_value(),
    {
        self.modification = Some(value);
    }

    /// Configure the value handed back for a returning call.
    pub fn set_return(&mut self, value: O)
        ensures
            final(self).spec_return_value() == Some(value),
            final(self).spec_name() == old(self).spec_name(),
            final(self).spec_constraints() == old(self).spec_constraints(),
            final(self).spec_modification() == old(self).spec_modification(),
    {
        self.return_value = Some(value);
    }

    /// Feed one matching call's parameters to every rule, in order.
    fn constraints_handle_call(&mut self, params: &I)
        requires
            old(self).can_count(),
        ensures
            Self::spec_handles_call(*old(self), *final(self), *params),
    {
        let n = self.constraints.len();
        let mut i: usize = 0;
        while i < n
            invariant
                i <= n,
                n == self.constraints.len(),
                n == old(self).spec_constraints().len(),
                old(self).can_count(),
                self.name == old(self).spec_name(),
                self.modification == old(self).spec_modification(),
                self.return_value == old(self).spec_return_value(),
                forall|j: int|
                    0 <= j < i ==> Constraint::spec_handles(
                        #[trigger] old(self).spec_constraints()[j],
                        self.constraints@[j],
                        params,
                    ),
                forall|j: int|
                    i <= j < n ==> self.constraints@[j] == #[trigger] old(
                        self,
                    ).spec_constraints()[j],
            decreases n - i,
        {
            proof {
                assert(old(self).spec_constraints()[i as int].can_count());
            }
            let c = &mut self.constraints[i];
            c.handle_call(params);
            i += 1;
        }
    }

    /// Apply the configured parameter modification, if any.
    fn run_modification_behavior(&self, params: &mut I)
        where I: Clone
        ensures
            match self.spec_modification() {
                Some(v) => cloned(v, *final(params)),
                None => *final(params) == *old(params),
            },
    {
        if let Some(v) = &self.modification {
            *params = v.clone();
        }
    }

    /// Tell this expectation that a matching call arrived.
    ///
    /// The rules judge the parameter value the caller handed in; only after
    /// they have run is the configured modification, if any, written over the
    /// parameter, where the caller of the mocked method can observe it.
    pub fn handle_call(&mut self, params: &mut I)
        where I: Clone
        requires
            old(self).can_count(),
        ensures
            Self::spec_handles_call(*old(self), *final(self), *old(params)),
            match old(self).spec_modification() {
                Some(v) => cloned(v, *final(params)),
                None => *final(params) == *old(params),
            },
            old(self).wf() ==> final(self).wf(),
    {
        self.constraints_handle_call(params);
        proof {
            assert forall|i: int|
                0 <= i < self.spec_constraints().len() && old(self).wf() implies (
            #[trigger] self.spec_constraints()[i]).wf() by {
                assert(old(self).spec_constraints()[i].wf());
                assert(Constraint::spec_handles(
                    old(self).spec_constraints()[i],
                    self.spec_constraints()[i],
                    &*old(params),
                ));
            }
        }
        self.run_modification_behavior(params);
    }

    /// Hand back the configured return value for one matching call.
    ///
    /// The call's parameters are consumed with the call; asking for a value
    /// when none was configured is a usage error, which the store reports
    /// before it ever reaches this function.
    pub fn return_value_for(&self, _params: I) -> (r: O)
        where O: Clone
        requires
            self.spec_return_value() is Some,
        ensures
            cloned(self.spec_return_value()->Some_0, r),
    {
        self.return_value.as_ref().unwrap().clone()
    }

    /// Check every rule, in order, and report the first failure.
    pub fn verify(&self) -> (r: ExpectationResult)
        requires
            self.can_count(),
        ensures
            r is Ok <==> self.spec_passes(),
            r matches Err(e) ==> self.spec_error_for(e),
    {
        let n = self.constraints.len();
        let mut i: usize = 0;
        while i < n
            invariant
                i <= n,
                n == self.constraints.len(),
                self.can_count(),
                forall|j: int| 0 <= j < i ==> (#[trigger] self.spec_constraints()[j]).spec_passes(),
            decreases n - i,
        {
            proof {
                assert(self.spec_constraints()[i as int].can_count());
            }
            let r = self.constraints[i].verify();
            if let Err(constraint_err) = r {
                proof {
                    assert(!self.spec_constraints()[i as int].spec_passes());
                    assert(self.spec_constraints()[i as int].spec_reports(
                        Err(constraint_err),
                    ));
                }
                return Err(ExpectationError { constraint_err, method_name: self.name.clone() });
            }
            proof {
                assert(self.spec_constraints()[i as int].spec_passes());
            }
            i += 1;
        }
        Ok(())
    }
}

/// An ordered group of expectation identifiers that must all be satisfied
/// before the next group is considered.
///
/// The store opens one era at construction and one more per
/// [`new_era`](crate::store::ExpectationStore::new_era) call.
pub struct ExpectationEra {
    ids: Vec<ExpectationId>,
}

impl View for ExpectationEra {
    type V = Seq<ExpectationId>;

    closed spec fn view(&self) -> Seq<ExpectationId> {
        self.ids@
    }
}

impl ExpectationEra {
    pub fn new() -> (r: Self)
        ensures
            r@ =~= Seq::<ExpectationId>::empty(),
    {
        ExpectationEra { ids: Vec::new() }
    }

    /// Append one expectation to this era.
    pub fn add(&mut self, id: ExpectationId)
        ensures
            final(self)@ == old(self)@.push(id),
    {
        self.ids.push(id);
    }

    /// How many expectations this era holds.
    pub fn len(&self) -> (r: usize)
        ensures
            r == self@.len(),
    {
        self.ids.len()
    }

    /// The identifier at the given position.
    pub fn id_at(&self, i: usize) -> (r: ExpectationId)
        requires
            i < self@.len(),
        ensures
            r == self@[i as int],
    {
        self.ids[i]
    }
}

} // verus!
