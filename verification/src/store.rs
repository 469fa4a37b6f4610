//! The engine: owns all expectations and eras, matches calls and verifies.

use vstd::prelude::*;

use crate::expectation::{Expectation, ExpectationEra, ExpectationError, ExpectationResult};
use crate::validator::Validator;
use crate::{ExpectationId, MethodName};

verus! {

/// A usage error detected eagerly, at the call site that committed it.
///
/// Such an error marks a defective test setup, not a failure of the code
/// under test; the panicking facade around the engine aborts on it at once.
#[derive(Clone, Debug, PartialEq)]
pub enum ConfigError {
    /// An expectation for this method name is already registered in the era
    /// that is still being built.
    DuplicateExpectation(String),
    /// A returning call matched no expectation, so no return value exists.
    NoExpectationMatched(String),
    /// A returning call matched an expectation without a configured return
    /// value.
    NoReturnBehavior(String),
}

/// The transient result of resolving one call against the store: the
/// matched expectation identifiers, and the method name they match.
pub struct ExpectationMatcher {
    ids: Vec<ExpectationId>,
    name: MethodName,
}

impl ExpectationMatcher {
    /// The matched identifiers, in era order.
    pub closed spec fn spec_ids(&self) -> Seq<ExpectationId> {
        self.ids@
    }

    /// The method name the lookup was made for.
    pub closed spec fn spec_name(&self) -> MethodName {
        self.name
    }

    /// How many expectations were matched.
    pub fn id_count(&self) -> (r: usize)
        ensures
            r == self.spec_ids().len(),
    {
        self.ids.len()
    }
}

/// Owns every expectation and era of one mock object, together with the
/// cursor of the first era that is not yet known to be satisfied.
pub struct ExpectationStore<I, O, V: Validator<I>> {
    current_unverified_era: usize,
    eras: Vec<ExpectationEra>,
    expectations: Vec<Expectation<I, O, V>>,
}

impl<I, O, V: Validator<I>> ExpectationStore<I, O, V> {
    /// The index of the first era not yet known to be satisfied.
    pub closed spec fn spec_cursor(&self) -> int {
        self.current_unverified_era as int
    }

    /// The eras, in declaration order; each holds expectation identifiers.
    pub closed spec fn spec_eras(&self) -> Seq<ExpectationEra> {
        self.eras@
    }

    /// The arena of expectations; an identifier is an index into it.
    pub closed spec fn spec_expectations(&self) -> Seq<Expectation<I, O, V>> {
        self.expectations@
    }

    /// The store's structural invariant: there is always at least one era,
    /// the cursor points at one of them, every identifier an era holds names
    /// an expectation of the arena, and no era lists one identifier twice.
    pub open spec fn wf(&self) -> bool {
        &&& self.spec_eras().len() >= 1
        &&& 0 <= self.spec_cursor() < self.spec_eras().len()
        &&& forall|e: int, k: int|
            0 <= e < self.spec_eras().len() && 0 <= k < self.spec_eras()[e]@.len() ==> (
            #[trigger] self.spec_eras()[e]@[k]) < self.spec_expectations().len()
        &&& forall|e: int|
            0 <= e < self.spec_eras().len() ==> (#[trigger] self.spec_eras()[e]@).no_duplicates()
    }

    /// No expectation identifier is listed by two different era positions.
    ///
    /// Stores built through the public interface always satisfy this:
    /// registration appends a fresh identifier to the open era.
    pub open spec fn ids_disjoint(&self) -> bool {
        forall|e1: int, k1: int, e2: int, k2: int|
            0 <= e1 < self.spec_eras().len() && 0 <= k1 < self.spec_eras()[e1]@.len() && 0 <= e2
                < self.spec_eras().len() && 0 <= k2 < self.spec_eras()[e2]@.len() && (e1 != e2 || k1
                != k2) ==> (#[trigger] self.spec_eras()[e1]@[k1]) != (
            #[trigger] self.spec_eras()[e2]@[k2])
    }

    /// Every era the cursor has moved past passes.
    ///
    /// This is what the cursor means: it only advances across eras whose
    /// expectations all verified, and such an era can never regress, because
    /// calls are only ever routed to the era the cursor rests on.
    pub open spec fn cursor_sound(&self) -> bool {
        forall|e: int| 0 <= e < self.spec_cursor() ==> #[trigger] self.era_passes(e)
    }

    /// Every count rule in the store can still count one more call.
    pub open spec fn can_count(&self) -> bool {
        forall|i: int|
            0 <= i < self.spec_expectations().len() ==> (
            #[trigger] self.spec_expectations()[i]).can_count()
    }

    /// The count bookkeeping of every expectation is intact.
    pub open spec fn counts_wf(&self) -> bool {
        forall|i: int|
            0 <= i < self.spec_expectations().len() ==> (#[trigger] self.spec_expectations()[i]).wf()
    }

    /// Whether every expectation of the era at the given index passes.
    pub open spec fn era_passes(&self, e: int) -> bool {
        forall|k: int|
            0 <= k < self.spec_eras()[e]@.len() ==> self.spec_expectations()[(
            #[trigger] self.spec_eras()[e]@[k]) as int].spec_passes()
    }

    /// The first era at or after `i` that does not pass, or the number of
    /// eras if every era from `i` on passes.
    pub open spec fn first_failing_era_from(&self, i: int) -> int
        decreases self.spec_eras().len() - i,
    {
        if i >= self.spec_eras().len() {
            i
        } else if !self.era_passes(i) {
            i
        } else {
            self.first_failing_era_from(i + 1)
        }
    }

    /// Where the cursor stands after the verification pass: at the first
    /// failing era, or at the last era when every remaining era passes.
    pub open spec fn spec_advanced_cursor(&self) -> int {
        if self.first_failing_era_from(self.spec_cursor()) == self.spec_eras().len() {
            self.spec_eras().len() - 1
        } else {
            self.first_failing_era_from(self.spec_cursor())
        }
    }

    /// The whole store verifies when every era from the cursor on passes.
    pub open spec fn spec_all_pass(&self) -> bool {
        self.first_failing_era_from(self.spec_cursor()) == self.spec_eras().len()
    }

    /// Which errors the verification pass may report for the era at index
    /// `e`: the first failing expectation of that era speaks, in era order.
    pub open spec fn era_error_for(&self, e: int, err: ExpectationError) -> bool {
        exists|k: int|
            {
                &&& 0 <= k < self.spec_eras()[e]@.len()
                &&& !self.spec_expectations()[(#[trigger] self.spec_eras()[e]@[k]) as int].spec_passes()
                &&& forall|k2: int|
                    0 <= k2 < k ==> self.spec_expectations()[(#[trigger] self.spec_eras()[e]@[k2])
                        as int].spec_passes()
                &&& self.spec_expectations()[self.spec_eras()[e]@[k] as int].spec_error_for(err)
            }
    }

    /// The identifiers among `ids` whose expectation watches the method with
    /// the given name, in era order.
    pub open spec fn spec_matched_rec(
        exps: Seq<Expectation<I, O, V>>,
        ids: Seq<ExpectationId>,
        name: Seq<char>,
    ) -> Seq<ExpectationId>
        decreases ids.len(),
    {
        if ids.len() == 0 {
            Seq::empty()
        } else {
            let rest = Self::spec_matched_rec(exps, ids.drop_last(), name);
            if exps[ids.last() as int].spec_name()@ == name {
                rest.push(ids.last())
            } else {
                rest
            }
        }
    }

    /// The identifiers a call with the given method name is routed to, once
    /// the cursor has advanced past every era that already passes: the
    /// matching identifiers of the era the advanced cursor rests on.
    pub open spec fn spec_matched_after_advance(&self, name: Seq<char>) -> Seq<ExpectationId> {
        Self::spec_matched_rec(
            self.spec_expectations(),
            self.spec_eras()[self.spec_advanced_cursor()]@,
            name,
        )
    }

    /// Whether the era that is still being built (the last one) already
    /// holds an expectation for the method with the given name.
    pub open spec fn spec_has_expectation_in_open_era(&self, name: Seq<char>) -> bool {
        exists|k: int|
            0 <= k < self.spec_eras().last()@.len() && self.spec_expectations()[(
            #[trigger] self.spec_eras().last()@[k]) as int].spec_name()@ == name
    }

    /// What matching guarantees: every matched identifier comes from the
    /// filtered era, names its method correctly, and appears only once.
    proof fn lemma_matched_props(
        exps: Seq<Expectation<I, O, V>>,
        ids: Seq<ExpectationId>,
        name: Seq<char>,
    )
        ensures
            forall|x: ExpectationId| #[trigger]
                Self::spec_matched_rec(exps, ids, name).contains(x) ==> ids.contains(x),
            ids.no_duplicates() ==> Self::spec_matched_rec(exps, ids, name).no_duplicates(),
            forall|t: int|
                0 <= t < Self::spec_matched_rec(exps, ids, name).len() ==> exps[(
                #[trigger] Self::spec_matched_rec(exps, ids, name)[t]) as int].spec_name()@
                    == name,
        decreases ids.len(),
    {
        if ids.len() > 0 {
            Self::lemma_matched_props(exps, ids.drop_last(), name);
            let rest = Self::spec_matched_rec(exps, ids.drop_last(), name);
            let matched = Self::spec_matched_rec(exps, ids, name);
            assert forall|x: ExpectationId| ids.drop_last().contains(x) implies ids.contains(
                x,
            ) by {
                let i = choose|i: int| 0 <= i < ids.drop_last().len() && ids.drop_last()[i] == x;
                assert(ids[i] == x);
            }
            assert(ids[ids.len() - 1] == ids.last());
            assert(ids.contains(ids.last()));
            assert forall|x: ExpectationId| #[trigger] matched.contains(x) implies ids.contains(
                x,
            ) by {
                let t = choose|t: int| 0 <= t < matched.len() && matched[t] == x;
                if t < rest.len() {
                    assert(rest[t] == x);
                    assert(rest.contains(x));
                } else {
                    assert(x == ids.last());
                }
            }
            if ids.no_duplicates() {
                assert forall|p: int, q: int|
                    0 <= p < matched.len() && 0 <= q < matched.len() && p != q implies matched[p]
                    != matched[q] by {
                    if p < rest.len() && q < rest.len() {
                        assert(rest.no_duplicates());
                    } else {
                        let below = if p < q { p } else { q };
                        if rest.len() < matched.len() && below < rest.len() {
                            // one index names the freshly pushed last id
                            assert(rest[below] == matched[below]);
                            assert(rest.contains(rest[below]));
                            assert(ids.drop_last().contains(rest[below]));
                            let i = choose|i: int|
                                0 <= i < ids.drop_last().len() && ids.drop_last()[i] == rest[below];
                            assert(ids[i] == rest[below]);
                            assert(ids[i] != ids[ids.len() - 1]);
                        }
                    }
                }
            }
        }
    }

    /// Extending the filtered identifiers by one position either appends the
    /// identifier or leaves the matched sequence as it was.
    proof fn lemma_matched_take_step(
        exps: Seq<Expectation<I, O, V>>,
        ids: Seq<ExpectationId>,
        name: Seq<char>,
        k: int,
    )
        requires
            0 <= k < ids.len(),
        ensures
            Self::spec_matched_rec(exps, ids.take(k + 1), name) == if exps[ids[k] as int].spec_name()@
                == name {
                Self::spec_matched_rec(exps, ids.take(k), name).push(ids[k])
            } else {
                Self::spec_matched_rec(exps, ids.take(k), name)
            },
    {
        assert(ids.take(k + 1).drop_last() =~= ids.take(k));
        assert(ids.take(k + 1).last() == ids[k]);
    }

    /// Skipping over passing eras does not change where the first failing
    /// era lies.
    proof fn lemma_first_failing_skip(&self, i: int, j: int)
        requires
            i <= j <= self.spec_eras().len(),
            forall|e: int| i <= e < j ==> #[trigger] self.era_passes(e),
        ensures
            self.first_failing_era_from(i) == self.first_failing_era_from(j),
        decreases j - i,
    {
        if i < j {
            self.lemma_first_failing_skip(i + 1, j);
        }
    }

    /// Where the first failing era lies: at or after the start, no further
    /// than one past the last era, with every era before it passing, and
    /// itself failing unless every era passed.
    pub proof fn lemma_first_failing_bounds(&self, i: int)
        requires
            0 <= i <= self.spec_eras().len(),
        ensures
            i <= self.first_failing_era_from(i) <= self.spec_eras().len(),
            forall|e: int| i <= e < self.first_failing_era_from(i) ==> #[trigger] self.era_passes(e),
            self.first_failing_era_from(i) < self.spec_eras().len() ==> !self.era_passes(
                self.first_failing_era_from(i),
            ),
        decreases self.spec_eras().len() - i,
    {
        if i < self.spec_eras().len() && self.era_passes(i) {
            self.lemma_first_failing_bounds(i + 1);
        }
    }

    /// An empty store: one empty era, the cursor on it, no expectations.
    pub fn new() -> (r: Self)
        ensures
            r.wf(),
            r.can_count(),
            r.counts_wf(),
            r.spec_cursor() == 0,
            r.spec_eras().len() == 1,
            r.spec_eras()[0]@ =~= Seq::<ExpectationId>::empty(),
            r.spec_expectations() =~= Seq::<Expectation<I, O, V>>::empty(),
    {
        let mut eras: Vec<ExpectationEra> = Vec::new();
        eras.push(ExpectationEra::new());
        ExpectationStore { current_unverified_era: 0, eras, expectations: Vec::new() }
    }

    /// Register an expectation under the era that is still being built (the
    /// last one), and hand back its identifier.
    pub fn add(&mut self, expectation: Expectation<I, O, V>) -> (id: ExpectationId)
        requires
            old(self).wf(),
        ensures
            final(self).wf(),
            id == old(self).spec_expectations().len(),
            final(self).spec_expectations() == old(self).spec_expectations().push(expectation),
            final(self).spec_cursor() == old(self).spec_cursor(),
            final(self).spec_eras().len() == old(self).spec_eras().len(),
            forall|e: int|
                0 <= e < old(self).spec_eras().len() - 1 ==> #[trigger] final(self).spec_eras()[e]@
                    == old(self).spec_eras()[e]@,
            final(self).spec_eras().last()@ == old(self).spec_eras().last()@.push(id),
            old(self).ids_disjoint() ==> final(self).ids_disjoint(),
            old(self).cursor_sound() ==> final(self).cursor_sound(),
    {
        let id = self.expectations.len();
        self.expectations.push(expectation);
        let last = self.eras.len() - 1;
        let era = &mut self.eras[last];
        era.add(id);
        proof {
            let ghost lasti = self.spec_eras().len() - 1;
            assert forall|k: int|
                0 <= k < old(self).spec_eras()[lasti]@.len() implies old(self).spec_eras()[lasti]@[k]
                != id by {
                assert(old(self).spec_eras()[lasti]@[k] < old(self).spec_expectations().len());
            }
            assert forall|e: int|
                0 <= e < self.spec_eras().len() implies (#[trigger] self.spec_eras()[e]@).no_duplicates() by {
                if e != lasti {
                    assert(self.spec_eras()[e]@ == old(self).spec_eras()[e]@);
                }
            }
            if old(self).ids_disjoint() {
                assert forall|e1: int, k1: int, e2: int, k2: int|
                    0 <= e1 < self.spec_eras().len() && 0 <= k1 < self.spec_eras()[e1]@.len() && 0
                        <= e2 < self.spec_eras().len() && 0 <= k2 < self.spec_eras()[e2]@.len() && (
                e1 != e2 || k1 != k2) implies (#[trigger] self.spec_eras()[e1]@[k1]) != (
                #[trigger] self.spec_eras()[e2]@[k2]) by {
                    let n1 = old(self).spec_eras()[e1]@.len();
                    let n2 = old(self).spec_eras()[e2]@.len();
                    if (e1 == lasti && k1 == n1) || (e2 == lasti && k2 == n2) {
                        // one position is the freshly appended identifier
                        assert forall|e: int, k: int|
                            0 <= e < old(self).spec_eras().len() && 0 <= k < old(
                            self,
                        ).spec_eras()[e]@.len() implies (#[trigger] old(self).spec_eras()[e]@[k])
                            != id by {
                            assert(old(self).spec_eras()[e]@[k] < old(
                                self,
                            ).spec_expectations().len());
                        }
                    } else {
                        assert(self.spec_eras()[e1]@[k1] == old(self).spec_eras()[e1]@[k1]);
                        assert(self.spec_eras()[e2]@[k2] == old(self).spec_eras()[e2]@[k2]);
                    }
                }
            }
            if old(self).cursor_sound() {
                assert forall|e: int|
                    0 <= e < self.spec_cursor() implies #[trigger] self.era_passes(e) by {
                    assert(old(self).era_passes(e));
                    assert(self.spec_eras()[e]@ == old(self).spec_eras()[e]@);
                    assert forall|k: int|
                        0 <= k < self.spec_eras()[e]@.len() implies self.spec_expectations()[(
                    #[trigger] self.spec_eras()[e]@[k]) as int].spec_passes() by {
                        assert(old(self).spec_eras()[e]@[k] < old(
                            self,
                        ).spec_expectations().len());
                        assert(self.spec_expectations()[self.spec_eras()[e]@[k] as int] == old(
                            self,
                        ).spec_expectations()[old(self).spec_eras()[e]@[k] as int]);
                    }
                }
            }
        }
        id
    }

    /// Open a new era: later expectations are registered under it, and it is
    /// considered only once every earlier era has passed.
    pub fn new_era(&mut self)
        requires
            old(self).wf(),
        ensures
            final(self).wf(),
            final(self).spec_expectations() == old(self).spec_expectations(),
            final(self).spec_cursor() == old(self).spec_cursor(),
            final(self).spec_eras().len() == old(self).spec_eras().len() + 1,
            forall|e: int|
                0 <= e < old(self).spec_eras().len() ==> #[trigger] final(self).spec_eras()[e]@
                    == old(self).spec_eras()[e]@,
            final(self).spec_eras().last()@ =~= Seq::<ExpectationId>::empty(),
            old(self).ids_disjoint() ==> final(self).ids_disjoint(),
            old(self).cursor_sound() ==> final(self).cursor_sound(),
    {
        self.eras.push(ExpectationEra::new());
        proof {
            if old(self).ids_disjoint() {
                assert forall|e1: int, k1: int, e2: int, k2: int|
                    0 <= e1 < self.spec_eras().len() && 0 <= k1 < self.spec_eras()[e1]@.len() && 0
                        <= e2 < self.spec_eras().len() && 0 <= k2 < self.spec_eras()[e2]@.len() && (
                e1 != e2 || k1 != k2) implies (#[trigger] self.spec_eras()[e1]@[k1]) != (
                #[trigger] self.spec_eras()[e2]@[k2]) by {
                    assert(self.spec_eras()[e1]@[k1] == old(self).spec_eras()[e1]@[k1]);
                    assert(self.spec_eras()[e2]@[k2] == old(self).spec_eras()[e2]@[k2]);
                }
            }
            if old(self).cursor_sound() {
                assert forall|e: int|
                    0 <= e < self.spec_cursor() implies #[trigger] self.era_passes(e) by {
                    assert(old(self).era_passes(e));
                    assert(self.spec_eras()[e]@ == old(self).spec_eras()[e]@);
                }
            }
        }
    }

    /// Verify all expectations in this store.
    ///
    /// Eras are walked from the cursor on. The first era with a failing
    /// expectation stops the pass and reports that expectation's first
    /// failure; the cursor stays on that era. When every remaining era
    /// passes, the pass succeeds and the cursor rests on the last era.
    pub fn verify(&mut self) -> (r: ExpectationResult)
        requires
            old(self).wf(),
            old(self).can_count(),
        ensures
            final(self).wf(),
            final(self).spec_eras() == old(self).spec_eras(),
            final(self).spec_expectations() == old(self).spec_expectations(),
            final(self).spec_cursor() == old(self).spec_advanced_cursor(),
            r is Ok <==> old(self).spec_all_pass(),
            r matches Err(e) ==> old(self).era_error_for(
                old(self).first_failing_era_from(old(self).spec_cursor()),
                e,
            ),
            old(self).cursor_sound() ==> final(self).cursor_sound(),
            final(self).ids_disjoint() == old(self).ids_disjoint(),
    {
        let mut era_index = self.current_unverified_era;
        while era_index < self.eras.len()
            invariant
                self == old(self),
                self.wf(),
                self.can_count(),
                old(self).spec_cursor() <= era_index <= self.eras@.len(),
                forall|e: int| old(self).spec_cursor() <= e < era_index ==> #[trigger] self.era_passes(e),
            decreases self.eras@.len() - era_index,
        {
            let era_len = self.eras[era_index].len();
            let mut k: usize = 0;
            while k < era_len
                invariant
                    self == old(self),
                    self.wf(),
                    self.can_count(),
                    era_index < self.eras@.len(),
                    old(self).spec_cursor() <= era_index,
                    forall|e: int|
                        old(self).spec_cursor() <= e < era_index ==> #[trigger] self.era_passes(e),
                    era_len == self.spec_eras()[era_index as int]@.len(),
                    k <= era_len,
                    forall|k2: int|
                        0 <= k2 < k ==> self.spec_expectations()[(
                        #[trigger] self.spec_eras()[era_index as int]@[k2]) as int].spec_passes(),
                decreases era_len - k,
            {
                let id = self.eras[era_index].id_at(k);
                proof {
                    assert(self.spec_eras()[era_index as int]@[k as int]
                        < self.spec_expectations().len());
                    assert(self.spec_expectations()[id as int].can_count());
                }
                let r = self.expectations[id].verify();
                if let Err(e) = r {
                    self.current_unverified_era = era_index;
                    proof {
                        assert(!self.spec_expectations()[id as int].spec_passes());
                        assert(!old(self).era_passes(era_index as int));
                        old(self).lemma_first_failing_skip(
                            old(self).spec_cursor(),
                            era_index as int,
                        );
                        assert(old(self).first_failing_era_from(old(self).spec_cursor())
                            == era_index as int);
                        assert(old(self).era_error_for(era_index as int, e));
                        if old(self).cursor_sound() {
                            assert forall|e2: int|
                                0 <= e2 < self.spec_cursor() implies #[trigger] self.era_passes(
                                e2,
                            ) by {
                                assert(old(self).era_passes(e2));
                                assert(self.spec_eras() == old(self).spec_eras());
                                assert(self.spec_expectations() == old(
                                    self,
                                ).spec_expectations());
                            }
                        }
                    }
                    return Err(e);
                }
                k += 1;
            }
            proof {
                assert(self.era_passes(era_index as int));
            }
            era_index += 1;
        }
        proof {
            old(self).lemma_first_failing_skip(old(self).spec_cursor(), self.eras@.len() as int);
        }
        let last = self.eras.len() - 1;
        self.current_unverified_era = last;
        proof {
            if old(self).cursor_sound() {
                assert forall|e2: int|
                    0 <= e2 < self.spec_cursor() implies #[trigger] self.era_passes(e2) by {
                    assert(old(self).era_passes(e2));
                    assert(self.spec_eras() == old(self).spec_eras());
                    assert(self.spec_expectations() == old(self).spec_expectations());
                }
            }
        }
        Ok(())
    }

    /// Move the cursor past every era that already passes, discarding the
    /// verification outcome.
    pub fn advance_era(&mut self)
        requires
            old(self).wf(),
            old(self).can_count(),
        ensures
            final(self).wf(),
            final(self).spec_eras() == old(self).spec_eras(),
            final(self).spec_expectations() == old(self).spec_expectations(),
            final(self).spec_cursor() == old(self).spec_advanced_cursor(),
            old(self).cursor_sound() ==> final(self).cursor_sound(),
            final(self).ids_disjoint() == old(self).ids_disjoint(),
    {
        let _ = self.verify();
    }

    /// Collect, from the era the cursor rests on, the identifiers whose
    /// expectation watches the named method.
    fn collect_matched(&self, name: &MethodName) -> (r: Vec<ExpectationId>)
        requires
            self.wf(),
        ensures
            r@ == Self::spec_matched_rec(
                self.spec_expectations(),
                self.spec_eras()[self.spec_cursor()]@,
                name@,
            ),
    {
        let era_idx = self.current_unverified_era;
        let era_len = self.eras[era_idx].len();
        let mut matched: Vec<ExpectationId> = Vec::new();
        let mut k: usize = 0;
        while k < era_len
            invariant
                self.wf(),
                era_idx == self.spec_cursor(),
                era_len == self.spec_eras()[era_idx as int]@.len(),
                k <= era_len,
                matched@ == Self::spec_matched_rec(
                    self.spec_expectations(),
                    self.spec_eras()[era_idx as int]@.take(k as int),
                    name@,
                ),
            decreases era_len - k,
        {
            let id = self.eras[era_idx].id_at(k);
            proof {
                assert(self.spec_eras()[era_idx as int]@[k as int]
                    < self.spec_expectations().len());
                Self::lemma_matched_take_step(
                    self.spec_expectations(),
                    self.spec_eras()[era_idx as int]@,
                    name@,
                    k as int,
                );
            }
            if self.expectations[id].name_matches(name) {
                matched.push(id);
            }
            k += 1;
        }
        proof {
            let ghost e = era_idx as int;
            assert(self.spec_eras()[e]@.take(era_len as int) =~= self.spec_eras()[e]@);
        }
        matched
    }

    /// Resolve which expectations a call of the named method is routed to.
    ///
    /// The cursor first advances past every era that already passes, so the
    /// lookup always sees the current open era; the matcher is transient and
    /// is re-resolved from scratch for every call.
    pub fn matcher_for(&mut self, name: &str) -> (m: ExpectationMatcher)
        requires
            old(self).wf(),
            old(self).can_count(),
        ensures
            final(self).wf(),
            final(self).spec_eras() == old(self).spec_eras(),
            final(self).spec_expectations() == old(self).spec_expectations(),
            final(self).spec_cursor() == old(self).spec_advanced_cursor(),
            m.spec_ids() == old(self).spec_matched_after_advance(name@),
            m.spec_name()@ == name@,
            old(self).cursor_sound() ==> final(self).cursor_sound(),
            final(self).ids_disjoint() == old(self).ids_disjoint(),
    {
        self.advance_era();
        let name_string = String::from_str(name);
        let ids = self.collect_matched(&name_string);
        ExpectationMatcher { ids, name: name_string }
    }

    /// Whether the era that is still being built already holds an
    /// expectation for the named method; the cursor advances first, as it
    /// does before every lookup.
    pub fn has_expectation_for_method_in_current_era(&mut self, name: &str) -> (r: bool)
        requires
            old(self).wf(),
            old(self).can_count(),
        ensures
            final(self).wf(),
            final(self).spec_eras() == old(self).spec_eras(),
            final(self).spec_expectations() == old(self).spec_expectations(),
            final(self).spec_cursor() == old(self).spec_advanced_cursor(),
            r == old(self).spec_has_expectation_in_open_era(name@),
            old(self).cursor_sound() ==> final(self).cursor_sound(),
            final(self).ids_disjoint() == old(self).ids_disjoint(),
    {
        self.advance_era();
        let name_string = String::from_str(name);
        let last = self.eras.len() - 1;
        let era_len = self.eras[last].len();
        let mut found = false;
        let mut k: usize = 0;
        while k < era_len
            invariant
                self.wf(),
                last == self.spec_eras().len() - 1,
                era_len == self.spec_eras().last()@.len(),
                k <= era_len,
                found == exists|k2: int|
                    0 <= k2 < k && self.spec_expectations()[(
                    #[trigger] self.spec_eras().last()@[k2]) as int].spec_name()@ == name_string@,
            decreases era_len - k,
        {
            let id = self.eras[last].id_at(k);
            proof {
                assert(self.spec_eras()[last as int]@[k as int]
                    < self.spec_expectations().len());
                assert(self.spec_eras()[last as int]@[k as int]
                    == self.spec_eras().last()@[k as int]);
            }
            if self.expectations[id].name_matches(&name_string) {
                found = true;
            }
            k += 1;
        }
        found
    }

    /// How one routed call takes one expectation of the arena from its old
    /// state to its new one, and the parameter value with it: that
    /// expectation absorbs the call and, if it carries a modification, a
    /// clone of the modification value becomes the new parameter value.
    pub open spec fn spec_one_call(
        pre: Seq<Expectation<I, O, V>>,
        post: Seq<Expectation<I, O, V>>,
        id: ExpectationId,
        p_in: I,
        p_out: I,
    ) -> bool
        where I: Clone
    {
        &&& 0 <= id < pre.len()
        &&& post.len() == pre.len()
        &&& Expectation::spec_handles_call(pre[id as int], post[id as int], p_in)
        &&& forall|j: int| 0 <= j < pre.len() && j != id ==> post[j] == pre[j]
        &&& match pre[id as int].spec_modification() {
            Some(v) => vstd::pervasive::cloned(v, p_out),
            None => p_out == p_in,
        }
    }

    /// How one routed call takes the whole arena from its old state to its
    /// new one: the matched expectations absorb the call one after the
    /// other, in era order, each seeing the parameter value its predecessor
    /// left behind.
    pub open spec fn spec_calls_applied(
        pre: Seq<Expectation<I, O, V>>,
        post: Seq<Expectation<I, O, V>>,
        matched: Seq<ExpectationId>,
        p_in: I,
        p_out: I,
    ) -> bool
        where I: Clone
        decreases matched.len(),
    {
        if matched.len() == 0 {
            post == pre && p_out == p_in
        } else {
            exists|mid: Seq<Expectation<I, O, V>>, p_mid: I|
                {
                    &&& #[trigger] Self::spec_one_call(pre, mid, matched[0], p_in, p_mid)
                    &&& Self::spec_calls_applied(mid, post, matched.drop_first(), p_mid, p_out)
                }
        }
    }

    /// A chain of applied calls extends by one application at its end.
    proof fn lemma_calls_applied_push(
        pre: Seq<Expectation<I, O, V>>,
        mid: Seq<Expectation<I, O, V>>,
        post: Seq<Expectation<I, O, V>>,
        s: Seq<ExpectationId>,
        id: ExpectationId,
        p0: I,
        p1: I,
        p2: I,
    )
        where I: Clone
        requires
            Self::spec_calls_applied(pre, mid, s, p0, p1),
            Self::spec_one_call(mid, post, id, p1, p2),
        ensures
            Self::spec_calls_applied(pre, post, s.push(id), p0, p2),
        decreases s.len(),
    {
        if s.len() == 0 {
            assert(s.push(id)[0] == id);
            assert(s.push(id).drop_first() =~= Seq::<ExpectationId>::empty());
            assert(Self::spec_one_call(pre, post, id, p0, p2));
            assert(Self::spec_calls_applied(post, post, s.push(id).drop_first(), p2, p2));
        } else {
            let (mid1, pm) = choose|mid1: Seq<Expectation<I, O, V>>, pm: I|
                #[trigger] Self::spec_one_call(pre, mid1, s[0], p0, pm)
                    && Self::spec_calls_applied(mid1, mid, s.drop_first(), pm, p1);
            Self::lemma_calls_applied_push(mid1, mid, post, s.drop_first(), id, pm, p1, p2);
            assert(s.push(id).drop_first() =~= s.drop_first().push(id));
            assert(s.push(id)[0] == s[0]);
            assert(Self::spec_one_call(pre, mid1, s.push(id)[0], p0, pm));
            assert(Self::spec_calls_applied(
                mid1,
                post,
                s.push(id).drop_first(),
                pm,
                p2,
            ));
        }
    }

    /// What a chain of applied calls leaves untouched: the arena's size,
    /// every expectation that was not matched, and, of the matched ones,
    /// everything but their rules: the name, the modification, the return
    /// value and the count bookkeeping.
    pub proof fn lemma_calls_applied_frame(
        pre: Seq<Expectation<I, O, V>>,
        post: Seq<Expectation<I, O, V>>,
        matched: Seq<ExpectationId>,
        p_in: I,
        p_out: I,
    )
        where I: Clone
        requires
            Self::spec_calls_applied(pre, post, matched, p_in, p_out),
        ensures
            post.len() == pre.len(),
            forall|j: ExpectationId| 0 <= j < pre.len() && !matched.contains(j) ==> post[j as int]
                == pre[j as int],
            forall|j: int|
                0 <= j < pre.len() ==> {
                    &&& (#[trigger] post[j]).spec_name() == pre[j].spec_name()
                    &&& post[j].spec_modification() == pre[j].spec_modification()
                    &&& post[j].spec_return_value() == pre[j].spec_return_value()
                    &&& (pre[j].wf() ==> post[j].wf())
                },
        decreases matched.len(),
    {
        if matched.len() > 0 {
            let (mid, pm) = choose|mid: Seq<Expectation<I, O, V>>, pm: I|
                #[trigger] Self::spec_one_call(pre, mid, matched[0], p_in, pm)
                    && Self::spec_calls_applied(mid, post, matched.drop_first(), pm, p_out);
            Self::lemma_calls_applied_frame(mid, post, matched.drop_first(), pm, p_out);
            assert(matched[0] == matched.first());
            assert(matched.contains(matched[0]));
            assert forall|j: int|
                0 <= j < pre.len() implies {
                &&& (#[trigger] post[j]).spec_name() == pre[j].spec_name()
                &&& post[j].spec_modification() == pre[j].spec_modification()
                &&& post[j].spec_return_value() == pre[j].spec_return_value()
                &&& (pre[j].wf() ==> post[j].wf())
            } by {
                if j == matched[0] as int {
                    assert(Expectation::spec_handles_call(pre[j], mid[j], p_in));
                    Expectation::lemma_handles_call_wf(pre[j], mid[j], p_in);
                } else {
                    assert(mid[j] == pre[j]);
                }
                assert((post[j]).spec_name() == mid[j].spec_name());
            }
            assert forall|j: ExpectationId|
                0 <= j < pre.len() && !matched.contains(j) implies post[j as int] == pre[j as int] by {
                assert(j != matched[0]);
                if matched.drop_first().contains(j) {
                    let t = choose|t: int|
                        0 <= t < matched.drop_first().len() && matched.drop_first()[t] == j;
                    assert(matched[t + 1] == j);
                    assert(matched.contains(j));
                }
            }
        }
    }

    /// Route one call of the named method to the matching expectations of
    /// the current unresolved era and let them absorb it, in era order.
    ///
    /// Each matched expectation's rules judge the parameter value as it
    /// stands when that expectation is reached; only afterwards is that
    /// expectation's configured modification, if any, written over the
    /// parameter, where the caller of the mocked method observes it.
    pub fn was_called(&mut self, name: &str, params: &mut I)
        where I: Clone
        requires
            old(self).wf(),
            old(self).can_count(),
        ensures
            final(self).wf(),
            final(self).spec_eras() == old(self).spec_eras(),
            final(self).spec_cursor() == old(self).spec_advanced_cursor(),
            Self::spec_calls_applied(
                old(self).spec_expectations(),
                final(self).spec_expectations(),
                old(self).spec_matched_after_advance(name@),
                *old(params),
                *final(params),
            ),
            old(self).counts_wf() ==> final(self).counts_wf(),
            final(self).ids_disjoint() == old(self).ids_disjoint(),
            old(self).ids_disjoint() && old(self).cursor_sound() ==> final(self).cursor_sound(),
    {
        self.advance_era();
        let ghost s1 = *self;
        let name_string = String::from_str(name);
        let matched = self.collect_matched(&name_string);
        let ghost pre_exps = self.spec_expectations();
        let ghost p0 = *params;
        proof {
            Self::lemma_matched_props(
                pre_exps,
                self.spec_eras()[self.spec_cursor()]@,
                name_string@,
            );
            assert(self.spec_eras()[self.spec_cursor()]@.no_duplicates());
            assert forall|t: int| 0 <= t < matched@.len() implies matched@[t]
                < pre_exps.len() by {
                let x = matched@[t];
                assert(matched@.contains(x));
                assert(self.spec_eras()[self.spec_cursor()]@.contains(x));
                let k = choose|k: int|
                    0 <= k < self.spec_eras()[self.spec_cursor()]@.len() && self.spec_eras()[self.spec_cursor()]@[k]
                        == x;
            }
        }
        let n = matched.len();
        let mut i: usize = 0;
        while i < n
            invariant
                n == matched@.len(),
                i <= n,
                matched@.no_duplicates(),
                forall|t: int| 0 <= t < n ==> matched@[t] < pre_exps.len(),
                pre_exps == old(self).spec_expectations(),
                p0 == *old(params),
                old(self).can_count(),
                self.wf(),
                self.spec_eras() == old(self).spec_eras(),
                self.spec_cursor() == old(self).spec_advanced_cursor(),
                self.spec_expectations().len() == pre_exps.len(),
                Self::spec_calls_applied(
                    pre_exps,
                    self.spec_expectations(),
                    matched@.take(i as int),
                    p0,
                    *params,
                ),
                forall|t: int|
                    i <= t < n ==> self.spec_expectations()[(#[trigger] matched@[t]) as int]
                        == pre_exps[matched@[t] as int],
            decreases n - i,
        {
            let id = matched[i];
            proof {
                assert(matched@[i as int] < pre_exps.len());
                assert(self.spec_expectations()[id as int] == pre_exps[id as int]);
                assert(pre_exps[id as int].can_count());
            }
            let ghost mid_pre = self.spec_expectations();
            let ghost p_before = *params;
            let e = &mut self.expectations[id];
            e.handle_call(params);
            proof {
                assert(Self::spec_one_call(
                    mid_pre,
                    self.spec_expectations(),
                    id,
                    p_before,
                    *params,
                ));
                Self::lemma_calls_applied_push(
                    pre_exps,
                    mid_pre,
                    self.spec_expectations(),
                    matched@.take(i as int),
                    id,
                    p0,
                    p_before,
                    *params,
                );
                assert(matched@.take(i as int).push(id) =~= matched@.take(i as int + 1));
                assert forall|t: int|
                    i + 1 <= t < n implies self.spec_expectations()[(#[trigger] matched@[t]) as int]
                    == pre_exps[matched@[t] as int] by {
                    assert(matched@[t] != matched@[i as int]);
                    assert(mid_pre[matched@[t] as int] == pre_exps[matched@[t] as int]);
                }
            }
            i += 1;
        }
        proof {
            assert(matched@.take(n as int) =~= matched@);
            Self::lemma_calls_applied_frame(
                pre_exps,
                self.spec_expectations(),
                matched@,
                p0,
                *params,
            );
            if old(self).ids_disjoint() && old(self).cursor_sound() {
                assert forall|e: int|
                    0 <= e < self.spec_cursor() implies #[trigger] self.era_passes(e) by {
                    assert(s1.era_passes(e));
                    assert(self.spec_eras()[e]@ == s1.spec_eras()[e]@);
                    assert forall|k: int|
                        0 <= k < self.spec_eras()[e]@.len() implies self.spec_expectations()[(
                    #[trigger] self.spec_eras()[e]@[k]) as int].spec_passes() by {
                        let x = self.spec_eras()[e]@[k];
                        assert(x < pre_exps.len());
                        if matched@.contains(x) {
                            assert(s1.spec_eras()[s1.spec_cursor()]@.contains(x));
                            let k2 = choose|k2: int|
                                0 <= k2 < s1.spec_eras()[s1.spec_cursor()]@.len()
                                    && s1.spec_eras()[s1.spec_cursor()]@[k2] == x;
                            assert(s1.spec_eras()[e]@[k] != s1.spec_eras()[s1.spec_cursor()]@[k2]);
                            assert(false);
                        }
                        assert(self.spec_expectations()[x as int] == pre_exps[x as int]);
                        assert(s1.spec_expectations()[x as int].spec_passes());
                    }
                }
            }
        }
    }

    /// Route one returning call: the matched expectations absorb the call as
    /// in [`was_called`](Self::was_called), and the last matched
    /// expectation's configured return value is handed back.
    ///
    /// A returning call that matches no expectation, or whose expectation
    /// holds no return value, is a usage error: no value exists to return.
    pub fn was_called_returning(&mut self, name: &str, params: I) -> (r: Result<O, ConfigError>)
        where I: Clone, O: Clone
        requires
            old(self).wf(),
            old(self).can_count(),
        ensures
            final(self).wf(),
            final(self).spec_eras() == old(self).spec_eras(),
            final(self).spec_cursor() == old(self).spec_advanced_cursor(),
            exists|p_out: I|
                #[trigger] Self::spec_calls_applied(
                    old(self).spec_expectations(),
                    final(self).spec_expectations(),
                    old(self).spec_matched_after_advance(name@),
                    params,
                    p_out,
                ),
            old(self).counts_wf() ==> final(self).counts_wf(),
            final(self).ids_disjoint() == old(self).ids_disjoint(),
            old(self).ids_disjoint() && old(self).cursor_sound() ==> final(self).cursor_sound(),
            ({
                let matched = old(self).spec_matched_after_advance(name@);
                if matched.len() == 0 {
                    &&& r matches Err(ConfigError::NoExpectationMatched(n)) && n@ == name@
                    &&& final(self).spec_expectations() == old(self).spec_expectations()
                } else {
                    match old(self).spec_expectations()[matched.last() as int].spec_return_value() {
                        Some(v) => r matches Ok(out) && vstd::pervasive::cloned(v, out),
                        None => r matches Err(ConfigError::NoReturnBehavior(n)) && n@ == name@,
                    }
                }
            }),
    {
        self.advance_era();
        let ghost s1 = *self;
        let name_string = String::from_str(name);
        let matched = self.collect_matched(&name_string);
        let ghost pre_exps = self.spec_expectations();
        proof {
            Self::lemma_matched_props(
                pre_exps,
                self.spec_eras()[self.spec_cursor()]@,
                name_string@,
            );
            assert(self.spec_eras()[self.spec_cursor()]@.no_duplicates());
            assert forall|t: int| 0 <= t < matched@.len() implies matched@[t]
                < pre_exps.len() by {
                let x = matched@[t];
                assert(matched@.contains(x));
                assert(self.spec_eras()[self.spec_cursor()]@.contains(x));
                let k = choose|k: int|
                    0 <= k < self.spec_eras()[self.spec_cursor()]@.len() && self.spec_eras()[self.spec_cursor()]@[k]
                        == x;
            }
        }
        if matched.len() == 0 {
            proof {
                assert(Self::spec_calls_applied(
                    pre_exps,
                    self.spec_expectations(),
                    matched@,
                    params,
                    params,
                ));
            }
            return Err(ConfigError::NoExpectationMatched(name_string));
        }
        let mut p = params;
        let ghost p0 = p;
        let n = matched.len();
        let mut i: usize = 0;
        while i < n
            invariant
                n == matched@.len(),
                i <= n,
                matched@.no_duplicates(),
                forall|t: int| 0 <= t < n ==> matched@[t] < pre_exps.len(),
                pre_exps == old(self).spec_expectations(),
                old(self).can_count(),
                self.wf(),
                self.spec_eras() == old(self).spec_eras(),
                self.spec_cursor() == old(self).spec_advanced_cursor(),
                self.spec_expectations().len() == pre_exps.len(),
                Self::spec_calls_applied(
                    pre_exps,
                    self.spec_expectations(),
                    matched@.take(i as int),
                    p0,
                    p,
                ),
                forall|t: int|
                    i <= t < n ==> self.spec_expectations()[(#[trigger] matched@[t]) as int]
                        == pre_exps[matched@[t] as int],
            decreases n - i,
        {
            let id = matched[i];
            proof {
                assert(matched@[i as int] < pre_exps.len());
                assert(self.spec_expectations()[id as int] == pre_exps[id as int]);
                assert(pre_exps[id as int].can_count());
            }
            let ghost mid_pre = self.spec_expectations();
            let ghost p_before = p;
            let e = &mut self.expectations[id];
            e.handle_call(&mut p);
            proof {
                assert(Self::spec_one_call(mid_pre, self.spec_expectations(), id, p_before, p));
                Self::lemma_calls_applied_push(
                    pre_exps,
                    mid_pre,
                    self.spec_expectations(),
                    matched@.take(i as int),
                    id,
                    p0,
                    p_before,
                    p,
                );
                assert(matched@.take(i as int).push(id) =~= matched@.take(i as int + 1));
                assert forall|t: int|
                    i + 1 <= t < n implies self.spec_expectations()[(#[trigger] matched@[t]) as int]
                    == pre_exps[matched@[t] as int] by {
                    assert(matched@[t] != matched@[i as int]);
                    assert(mid_pre[matched@[t] as int] == pre_exps[matched@[t] as int]);
                }
            }
            i += 1;
        }
        proof {
            assert(matched@.take(n as int) =~= matched@);
            Self::lemma_calls_applied_frame(pre_exps, self.spec_expectations(), matched@, p0, p);
            assert(matched@[n - 1] == matched@.last());
            if old(self).ids_disjoint() && old(self).cursor_sound() {
                assert forall|e: int|
                    0 <= e < self.spec_cursor() implies #[trigger] self.era_passes(e) by {
                    assert(s1.era_passes(e));
                    assert(self.spec_eras()[e]@ == s1.spec_eras()[e]@);
                    assert forall|k: int|
                        0 <= k < self.spec_eras()[e]@.len() implies self.spec_expectations()[(
                    #[trigger] self.spec_eras()[e]@[k]) as int].spec_passes() by {
                        let x = self.spec_eras()[e]@[k];
                        assert(x < pre_exps.len());
                        if matched@.contains(x) {
                            assert(s1.spec_eras()[s1.spec_cursor()]@.contains(x));
                            let k2 = choose|k2: int|
                                0 <= k2 < s1.spec_eras()[s1.spec_cursor()]@.len()
                                    && s1.spec_eras()[s1.spec_cursor()]@[k2] == x;
                            assert(s1.spec_eras()[e]@[k] != s1.spec_eras()[s1.spec_cursor()]@[k2]);
                            assert(false);
                        }
                        assert(self.spec_expectations()[x as int] == pre_exps[x as int]);
                        assert(s1.spec_expectations()[x as int].spec_passes());
                    }
                }
            }
        }
        let last_id = matched[n - 1];
        let exp = &self.expectations[last_id];
        if exp.has_return() {
            let out = exp.return_value_for(p);
            Ok(out)
        } else {
            Err(ConfigError::NoReturnBehavior(name_string))
        }
    }

    /// Era ordering: a call is only ever routed to expectations of the
    /// first unsatisfied era. Whenever an expectation is matched, it lies in
    /// the era the advanced cursor rests on, and every era before that one
    /// passes in full -- so no expectation of a later era is matched while
    /// an earlier era still holds an unsatisfied expectation.
    pub proof fn lemma_era_ordering(&self, name: Seq<char>, t: int)
        requires
            self.wf(),
            self.cursor_sound(),
            0 <= t < self.spec_matched_after_advance(name).len(),
        ensures
            self.spec_eras()[self.spec_advanced_cursor()]@.contains(
                self.spec_matched_after_advance(name)[t],
            ),
            forall|e: int|
                0 <= e < self.spec_advanced_cursor() ==> #[trigger] self.era_passes(e),
    {
        Self::lemma_matched_props(
            self.spec_expectations(),
            self.spec_eras()[self.spec_advanced_cursor()]@,
            name,
        );
        assert(self.spec_matched_after_advance(name).contains(
            self.spec_matched_after_advance(name)[t],
        ));
        self.lemma_first_failing_bounds(self.spec_cursor());
        assert forall|e: int|
            0 <= e < self.spec_advanced_cursor() implies #[trigger] self.era_passes(e) by {
            if e < self.spec_cursor() {
                assert(self.era_passes(e));
            }
        }
    }

    /// Eager advancement: the moment every expectation in the eras before
    /// era `b` is satisfied while `b` itself is not, the very next lookup
    /// matches against era `b` -- no explicit verification pass by the test
    /// author is needed in between.
    pub proof fn lemma_eager_advancement(&self, b: int)
        requires
            self.wf(),
            self.cursor_sound(),
            0 <= b < self.spec_eras().len(),
            forall|e: int| 0 <= e < b ==> #[trigger] self.era_passes(e),
            !self.era_passes(b),
        ensures
            self.spec_advanced_cursor() == b,
    {
        assert(self.spec_cursor() <= b);
        self.lemma_first_failing_skip(self.spec_cursor(), b);
    }

    /// Verification is idempotent: a second pass with no calls in between
    /// reaches the same outcome, reports it for the same era, and leaves the
    /// cursor exactly where the first pass put it.
    pub proof fn lemma_verify_idempotent(&self)
        requires
            self.wf(),
        ensures
            self.first_failing_era_from(self.spec_advanced_cursor())
                == self.first_failing_era_from(self.spec_cursor()),
            ({
                let adv = self.spec_advanced_cursor();
                let j2 = self.first_failing_era_from(adv);
                (if j2 == self.spec_eras().len() {
                    self.spec_eras().len() - 1
                } else {
                    j2
                }) == adv
            }),
    {
        self.lemma_first_failing_bounds(self.spec_cursor());
        let j = self.first_failing_era_from(self.spec_cursor());
        let len: int = self.spec_eras().len() as int;
        if j == len {
            assert(self.era_passes(len - 1));
            assert(self.first_failing_era_from(len) == len);
            assert(self.first_failing_era_from(len - 1) == len);
        }
    }

    /// (For tests) the number of expectations in the store.
    pub fn exp_count(&self) -> (r: usize)
        ensures
            r == self.spec_expectations().len(),
    {
        self.expectations.len()
    }

    /// (For tests) the number of eras in the store.
    pub fn era_count(&self) -> (r: usize)
        ensures
            r == self.spec_eras().len(),
    {
        self.eras.len()
    }
}

} // verus!
