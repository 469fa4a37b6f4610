//! The per-mock facade: what a hand-written mock object owns and calls.

use vstd::prelude::*;

use crate::expectation::ExpectationResult;
use crate::method::TrackedMethod;
use crate::store::{ConfigError, ExpectationStore};
use crate::validator::Validator;
use crate::ExpectationId;

verus! {

/// What a mock object owns: the expectation store, behind the registration
/// and call-routing workflow the generated glue drives.
///
/// Registration refuses a second expectation for a method name whose open
/// era already holds one: the second could never be matched and the mistake
/// should surface at setup time, not as a confusing verification failure.
pub struct Expectations<I, O, V: Validator<I>> {
    store: ExpectationStore<I, O, V>,
}

impl<I, O, V: Validator<I>> Expectations<I, O, V> {
    /// The engine this facade drives.
    pub closed spec fn spec_store(&self) -> ExpectationStore<I, O, V> {
        self.store
    }

    /// The facade keeps the store structurally sound, its era identifiers
    /// disjoint, and its cursor truthful: every era behind it passes.
    pub open spec fn wf(&self) -> bool {
        &&& self.spec_store().wf()
        &&& self.spec_store().ids_disjoint()
        &&& self.spec_store().cursor_sound()
    }

    /// Every count rule can still count one more call.
    pub open spec fn can_count(&self) -> bool {
        self.spec_store().can_count()
    }

    /// The count bookkeeping of every expectation is intact.
    pub open spec fn counts_wf(&self) -> bool {
        self.spec_store().counts_wf()
    }

    /// A fresh mock: one empty era and no expectations.
    pub fn new() -> (r: Self)
        ensures
            r.wf(),
            r.can_count(),
            r.counts_wf(),
            r.spec_store().spec_cursor() == 0,
            r.spec_store().spec_eras().len() == 1,
            r.spec_store().spec_eras()[0]@ =~= Seq::<ExpectationId>::empty(),
            r.spec_store().spec_expectations().len() == 0,
    {
        Expectations { store: ExpectationStore::new() }
    }

    /// Register one built expectation under the open era.
    ///
    /// Registration fails, before any call is made, when the open era
    /// already holds an expectation for the same method name.
    pub fn expect(&mut self, method: TrackedMethod<I, O, V>) -> (r: Result<
        ExpectationId,
        ConfigError,
    >)
        requires
            old(self).wf(),
            old(self).can_count(),
        ensures
            final(self).wf(),
            final(self).spec_store().spec_cursor() == old(self).spec_store().spec_advanced_cursor(),
            old(self).can_count() && method.spec_expectation().can_count() ==> final(self).can_count(),
            old(self).counts_wf() && method.spec_expectation().wf() ==> final(self).counts_wf(),
            ({
                let name = method.spec_expectation().spec_name()@;
                if old(self).spec_store().spec_has_expectation_in_open_era(name) {
                    &&& r matches Err(ConfigError::DuplicateExpectation(n)) && n@ == name
                    &&& final(self).spec_store().spec_expectations() == old(self).spec_store().spec_expectations()
                    &&& final(self).spec_store().spec_eras() == old(self).spec_store().spec_eras()
                } else {
                    &&& r matches Ok(id) && id == old(self).spec_store().spec_expectations().len()
                    &&& final(self).spec_store().spec_expectations() == old(self).spec_store().spec_expectations().push(method.spec_expectation())
                    &&& final(self).spec_store().spec_eras().len() == old(self).spec_store().spec_eras().len()
                    &&& final(self).spec_store().spec_eras().last()@ == old(self).spec_store().spec_eras().last()@.push(
                        old(self).spec_store().spec_expectations().len() as ExpectationId,
                    )
                    &&& forall|e: int|
                        0 <= e < old(self).spec_store().spec_eras().len() - 1 ==> #[trigger] final(self).spec_store().spec_eras()[e]@ == old(self).spec_store().spec_eras()[e]@
                }
            }),
    {
        let exp = method.into_expectation();
        let duplicate = self.store.has_expectation_for_method_in_current_era(exp.name().as_str());
        if duplicate {
            Err(ConfigError::DuplicateExpectation(exp.name().clone()))
        } else {
            let ghost pre = self.store;
            let id = self.store.add(exp);
            proof {
                if old(self).can_count() && exp.can_count() {
                    assert forall|i: int|
                        0 <= i < self.spec_store().spec_expectations().len() implies (
                    #[trigger] self.spec_store().spec_expectations()[i]).can_count() by {
                        if i < pre.spec_expectations().len() {
                            assert(pre.spec_expectations()[i].can_count());
                        }
                    }
                }
                if old(self).counts_wf() && exp.wf() {
                    assert forall|i: int|
                        0 <= i < self.spec_store().spec_expectations().len() implies (
                    #[trigger] self.spec_store().spec_expectations()[i]).wf() by {
                        if i < pre.spec_expectations().len() {
                            assert(pre.spec_expectations()[i].wf());
                        }
                    }
                }
            }
            Ok(id)
        }
    }

    /// Open a new era: the boundary between one group of expectations and
    /// the next. Expectations in one era must be met before the
    /// expectations of later eras are considered.
    pub fn new_era(&mut self)
        requires
            old(self).wf(),
        ensures
            final(self).wf(),
            final(self).can_count() == old(self).can_count(),
            final(self).counts_wf() == old(self).counts_wf(),
            final(self).spec_store().spec_expectations() == old(self).spec_store().spec_expectations(),
            final(self).spec_store().spec_cursor() == old(self).spec_store().spec_cursor(),
            final(self).spec_store().spec_eras().len() == old(self).spec_store().spec_eras().len()
                + 1,
            forall|e: int|
                0 <= e < old(self).spec_store().spec_eras().len() ==> #[trigger] final(self).spec_store().spec_eras()[e]@ == old(self).spec_store().spec_eras()[e]@,
            final(self).spec_store().spec_eras().last()@ =~= Seq::<ExpectationId>::empty(),
    {
        self.store.new_era();
    }

    /// Tell the expectations that the named method was called, without
    /// asking for a return value.
    ///
    /// The matching expectations of the current unresolved era absorb the
    /// call; their rules judge the parameter value the caller handed in,
    /// and afterwards a configured modification is written over it, where
    /// the caller of the mocked method observes it.
    pub fn was_called(&mut self, name: &str, params: &mut I)
        where I: Clone
        requires
            old(self).wf(),
            old(self).can_count(),
        ensures
            final(self).wf(),
            final(self).spec_store().spec_eras() == old(self).spec_store().spec_eras(),
            final(self).spec_store().spec_cursor() == old(self).spec_store().spec_advanced_cursor(),
            ExpectationStore::<I, O, V>::spec_calls_applied(
                old(self).spec_store().spec_expectations(),
                final(self).spec_store().spec_expectations(),
                old(self).spec_store().spec_matched_after_advance(name@),
                *old(params),
                *final(params),
            ),
            old(self).counts_wf() ==> final(self).counts_wf(),
    {
        self.store.was_called(name, params);
    }

    /// Same as [`was_called`](Self::was_called), but the last matched
    /// expectation's configured return value is handed back as well.
    ///
    /// A returning call that matches no expectation, or whose expectation
    /// holds no return value, reports a usage error instead.
    pub fn was_called_returning(&mut self, name: &str, params: I) -> (r: Result<O, ConfigError>)
        where I: Clone, O: Clone
        requires
            old(self).wf(),
            old(self).can_count(),
        ensures
            final(self).wf(),
            final(self).spec_store().spec_eras() == old(self).spec_store().spec_eras(),
            final(self).spec_store().spec_cursor() == old(self).spec_store().spec_advanced_cursor(),
            exists|p_out: I|
                #[trigger] ExpectationStore::<I, O, V>::spec_calls_applied(
                    old(self).spec_store().spec_expectations(),
                    final(self).spec_store().spec_expectations(),
                    old(self).spec_store().spec_matched_after_advance(name@),
                    params,
                    p_out,
                ),
            old(self).counts_wf() ==> final(self).counts_wf(),
            ({
                let matched = old(self).spec_store().spec_matched_after_advance(name@);
                if matched.len() == 0 {
                    &&& r matches Err(ConfigError::NoExpectationMatched(n)) && n@ == name@
                    &&& final(self).spec_store().spec_expectations() == old(self).spec_store().spec_expectations()
                } else {
                    match old(self).spec_store().spec_expectations()[matched.last() as int].spec_return_value() {
                        Some(v) => r matches Ok(out) && vstd::pervasive::cloned(v, out),
                        None => r matches Err(ConfigError::NoReturnBehavior(n)) && n@ == name@,
                    }
                }
            }),
    {
        self.store.was_called_returning(name, params)
    }

    /// Verify all expectations registered so far.
    ///
    /// The first failing expectation, in era order, is reported; eras past
    /// the failing one are not examined in the same pass.
    pub fn verify(&mut self) -> (r: ExpectationResult)
        requires
            old(self).wf(),
            old(self).can_count(),
        ensures
            final(self).wf(),
            final(self).spec_store().spec_eras() == old(self).spec_store().spec_eras(),
            final(self).spec_store().spec_expectations() == old(self).spec_store().spec_expectations(),
            final(self).spec_store().spec_cursor() == old(self).spec_store().spec_advanced_cursor(),
            r is Ok <==> old(self).spec_store().spec_all_pass(),
            r matches Err(e) ==> old(self).spec_store().era_error_for(
                old(self).spec_store().first_failing_era_from(
                    old(self).spec_store().spec_cursor(),
                ),
                e,
            ),
    {
        self.store.verify()
    }
}

} // verus!
