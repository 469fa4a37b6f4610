//! Stock validators: trivial outcomes, comparisons, closures and tuples.

use core::marker::PhantomData;
use vstd::prelude::*;
use vstd::std_specs::cmp::PartialOrdSpec;
use vstd::string::StringExecFns;

use crate::validator::{debug_text, Validator};

verus! {

/// A validator with a fixed outcome: it either accepts every parameter or
/// rejects every parameter.
pub struct Trivial(bool);

/// A validator that accepts any parameter value.
pub fn any() -> (r: Trivial)
    ensures
        r.spec_accepts_all(),
{
    Trivial(true)
}

/// A validator that rejects any parameter value.
pub fn none() -> (r: Trivial)
    ensures
        !r.spec_accepts_all(),
{
    Trivial(false)
}

impl Trivial {
    /// Whether this validator accepts every parameter (else it rejects all).
    pub closed spec fn spec_accepts_all(&self) -> bool {
        self.0
    }
}

impl<I> Validator<I> for Trivial {
    open spec fn spec_valid(&self, param: &I, outcome: bool) -> bool {
        outcome == self.spec_accepts_all()
    }

    fn validate(&self, _param: &I) -> bool {
        self.0
    }

    fn print(&self) -> String {
        if self.0 {
            String::from_str("Always Passes")
        } else {
            String::from_str("Always Fails")
        }
    }
}

/// Accepts exactly the parameters strictly greater than the stored bound.
pub struct GreaterThan<I: PartialOrd>(I);

/// Parameters must be `>` the provided value.
pub fn gt<I: PartialOrd>(other: I) -> (r: GreaterThan<I>)
    ensures
        r.spec_bound() == other,
{
    GreaterThan(other)
}

impl<I: PartialOrd> GreaterThan<I> {
    /// The bound the parameter is compared against.
    pub closed spec fn spec_bound(&self) -> I {
        self.0
    }
}

impl<I: PartialOrd> Validator<I> for GreaterThan<I> {
    open spec fn spec_valid(&self, param: &I, outcome: bool) -> bool {
        I::obeys_partial_cmp_spec() ==> (outcome <==> param.partial_cmp_spec(&self.spec_bound())
            == Some(core::cmp::Ordering::Greater))
    }

    fn validate(&self, param: &I) -> bool {
        param.gt(&self.0)
    }

    fn print(&self) -> String {
        String::from_str("> ").concat(debug_text(&self.0).as_str())
    }
}

/// Accepts exactly the parameters strictly less than the stored bound.
pub struct LessThan<I: PartialOrd>(I);

/// Parameters must be `<` the provided value.
pub fn lt<I: PartialOrd>(other: I) -> (r: LessThan<I>)
    ensures
        r.spec_bound() == other,
{
    LessThan(other)
}

impl<I: PartialOrd> LessThan<I> {
    /// The bound the parameter is compared against.
    pub closed spec fn spec_bound(&self) -> I {
        self.0
    }
}

impl<I: PartialOrd> Validator<I> for LessThan<I> {
    open spec fn spec_valid(&self, param: &I, outcome: bool) -> bool {
        I::obeys_partial_cmp_spec() ==> (outcome <==> param.partial_cmp_spec(&self.spec_bound())
            == Some(core::cmp::Ordering::Less))
    }

    fn validate(&self, param: &I) -> bool {
        param.lt(&self.0)
    }

    fn print(&self) -> String {
        String::from_str("< ").concat(debug_text(&self.0).as_str())
    }
}

/// Wraps a user-supplied closure as a validator.
pub struct Check<I, F: Fn(&I) -> bool> {
    closure: F,
    _input: PhantomData<I>,
}

/// Parameters must satisfy the given closure.
///
/// The closure must accept every parameter value it could be handed.
pub fn passes<I, F: Fn(&I) -> bool>(closure: F) -> (r: Check<I, F>)
    requires
        forall|p: &I| #[trigger] call_requires(closure, (p,)),
    ensures
        r.spec_closure() == closure,
{
    Check { closure, _input: PhantomData }
}

impl<I, F: Fn(&I) -> bool> Check<I, F> {
    /// The wrapped predicate.
    pub closed spec fn spec_closure(&self) -> F {
        self.closure
    }

    #[verifier::type_invariant]
    closed spec fn closure_callable(self) -> bool {
        forall|p: &I| #[trigger] call_requires(self.closure, (p,))
    }
}

impl<I, F: Fn(&I) -> bool> Validator<I> for Check<I, F> {
    open spec fn spec_valid(&self, param: &I, outcome: bool) -> bool {
        call_ensures(self.spec_closure(), (param,), outcome)
    }

    fn validate(&self, param: &I) -> bool {
        proof {
            use_type_invariant(self);
        }
        (self.closure)(param)
    }

    fn print(&self) -> String {
        String::from_str("Passes Closure")
    }
}

/// One of two validators.
///
/// A store is monomorphic in its validator type; this combinator lets the
/// expectations of one store carry validators of two different types, the
/// way an argument enum lets them carry parameters of different shapes.
pub enum Either<VA, VB> {
    First(VA),
    Second(VB),
}

impl<I, VA: Validator<I>, VB: Validator<I>> Validator<I> for Either<VA, VB> {
    open spec fn spec_valid(&self, param: &I, outcome: bool) -> bool {
        match self {
            Either::First(v) => v.spec_valid(param, outcome),
            Either::Second(v) => v.spec_valid(param, outcome),
        }
    }

    fn validate(&self, param: &I) -> bool {
        match self {
            Either::First(v) => v.validate(param),
            Either::Second(v) => v.validate(param),
        }
    }

    fn print(&self) -> String {
        match self {
            Either::First(v) => v.print(),
            Either::Second(v) => v.print(),
        }
    }
}

/// Validates a pair by handing each component to its own validator.
pub struct Tuple2<A, B, VA: Validator<A>, VB: Validator<B>> {
    first: VA,
    second: VB,
    _inputs: PhantomData<(A, B)>,
}

impl<A, B, VA: Validator<A>, VB: Validator<B>> Tuple2<A, B, VA, VB> {
    /// The validator for the first component.
    pub closed spec fn spec_first(&self) -> VA {
        self.first
    }

    /// The validator for the second component.
    pub closed spec fn spec_second(&self) -> VB {
        self.second
    }

    pub fn new(first: VA, second: VB) -> (r: Self)
        ensures
            r.spec_first() == first,
            r.spec_second() == second,
    {
        Tuple2 { first, second, _inputs: PhantomData }
    }
}

impl<A, B, VA: Validator<A>, VB: Validator<B>> Validator<(A, B)> for Tuple2<A, B, VA, VB> {
    open spec fn spec_valid(&self, param: &(A, B), outcome: bool) -> bool {
        exists|ra: bool, rb: bool|
            {
                &&& #[trigger] self.spec_first().spec_valid(&param.0, ra)
                &&& #[trigger] self.spec_second().spec_valid(&param.1, rb)
                &&& outcome == (ra && rb)
            }
    }

    fn validate(&self, param: &(A, B)) -> (r: bool)
    {
        let ra = self.first.validate(&param.0);
        let rb = self.second.validate(&param.1);
        proof {
            assert(self.spec_first().spec_valid(&param.0, ra));
            assert(self.spec_second().spec_valid(&param.1, rb));
        }
        ra && rb
    }

    fn print(&self) -> String {
        String::from_str("(").concat(self.first.print().as_str()).concat(", ").concat(
            self.second.print().as_str(),
        ).concat(")")
    }
}

/// Validates a triple by handing each component to its own validator.
pub struct Tuple3<A, B, C, VA: Validator<A>, VB: Validator<B>, VC: Validator<C>> {
    first: VA,
    second: VB,
    third: VC,
    _inputs: PhantomData<(A, B, C)>,
}

impl<A, B, C, VA: Validator<A>, VB: Validator<B>, VC: Validator<C>> Tuple3<A, B, C, VA, VB, VC> {
    /// The validator for the first component.
    pub closed spec fn spec_first(&self) -> VA {
        self.first
    }

    /// The validator for the second component.
    pub closed spec fn spec_second(&self) -> VB {
        self.second
    }

    /// The validator for the third component.
    pub closed spec fn spec_third(&self) -> VC {
        self.third
    }

    pub fn new(first: VA, second: VB, third: VC) -> (r: Self)
        ensures
            r.spec_first() == first,
            r.spec_second() == second,
            r.spec_third() == third,
    {
        Tuple3 { first, second, third, _inputs: PhantomData }
    }
}

impl<A, B, C, VA: Validator<A>, VB: Validator<B>, VC: Validator<C>> Validator<(A, B, C)> for Tuple3<
    A,
    B,
    C,
    VA,
    VB,
    VC,
> {
    open spec fn spec_valid(&self, param: &(A, B, C), outcome: bool) -> bool {
        exists|ra: bool, rb: bool, rc: bool|
            {
                &&& #[trigger] self.spec_first().spec_valid(&param.0, ra)
                &&& #[trigger] self.spec_second().spec_valid(&param.1, rb)
                &&& #[trigger] self.spec_third().spec_valid(&param.2, rc)
                &&& outcome == (ra && rb && rc)
            }
    }

    fn validate(&self, param: &(A, B, C)) -> (r: bool)
    {
        let ra = self.first.validate(&param.0);
        let rb = self.second.validate(&param.1);
        let rc = self.third.validate(&param.2);
        proof {
            assert(self.spec_first().spec_valid(&param.0, ra));
            assert(self.spec_second().spec_valid(&param.1, rb));
            assert(self.spec_third().spec_valid(&param.2, rc));
        }
        ra && rb && rc
    }

    fn print(&self) -> String {
        String::from_str("(").concat(self.first.print().as_str()).concat(", ").concat(
            self.second.print().as_str(),
        ).concat(", ").concat(self.third.print().as_str()).concat(")")
    }
}

/// Validates a quadruple by handing each component to its own validator.
pub struct Tuple4<A, B, C, D, VA: Validator<A>, VB: Validator<B>, VC: Validator<C>, VD: Validator<
    D,
>> {
    first: VA,
    second: VB,
    third: VC,
    fourth: VD,
    _inputs: PhantomData<(A, B, C, D)>,
}

impl<
    A,
    B,
    C,
    D,
    VA: Validator<A>,
    VB: Validator<B>,
    VC: Validator<C>,
    VD: Validator<D>,
> Tuple4<A, B, C, D, VA, VB, VC, VD> {
    /// The validator for the first component.
    pub closed spec fn spec_first(&self) -> VA {
        self.first
    }

    /// The validator for the second component.
    pub closed spec fn spec_second(&self) -> VB {
        self.second
    }

    /// The validator for the third component.
    pub closed spec fn spec_third(&self) -> VC {
        self.third
    }

    /// The validator for the fourth component.
    pub closed spec fn spec_fourth(&self) -> VD {
        self.fourth
    }

    pub fn new(first: VA, second: VB, third: VC, fourth: VD) -> (r: Self)
        ensures
            r.spec_first() == first,
            r.spec_second() == second,
            r.spec_third() == third,
            r.spec_fourth() == fourth,
    {
        Tuple4 { first, second, third, fourth, _inputs: PhantomData }
    }
}

impl<
    A,
    B,
    C,
    D,
    VA: Validator<A>,
    VB: Validator<B>,
    VC: Validator<C>,
    VD: Validator<D>,
> Validator<(A, B, C, D)> for Tuple4<A, B, C, D, VA, VB, VC, VD> {
    open spec fn spec_valid(&self, param: &(A, B, C, D), outcome: bool) -> bool {
        exists|ra: bool, rb: bool, rc: bool, rd: bool|
            {
                &&& #[trigger] self.spec_first().spec_valid(&param.0, ra)
                &&& #[trigger] self.spec_second().spec_valid(&param.1, rb)
                &&& #[trigger] self.spec_third().spec_valid(&param.2, rc)
                &&& #[trigger] self.spec_fourth().spec_valid(&param.3, rd)
                &&& outcome == (ra && rb && rc && rd)
            }
    }

    fn validate(&self, param: &(A, B, C, D)) -> (r: bool)
    {
        let ra = self.first.validate(&param.0);
        let rb = self.second.validate(&param.1);
        let rc = self.third.validate(&param.2);
        let rd = self.fourth.validate(&param.3);
        proof {
            assert(self.spec_first().spec_valid(&param.0, ra));
            assert(self.spec_second().spec_valid(&param.1, rb));
            assert(self.spec_third().spec_valid(&param.2, rc));
            assert(self.spec_fourth().spec_valid(&param.3, rd));
        }
        ra && rb && rc && rd
    }

    fn print(&self) -> String {
        String::from_str("(").concat(self.first.print().as_str()).concat(", ").concat(
            self.second.print().as_str(),
        ).concat(", ").concat(self.third.print().as_str()).concat(", ").concat(
            self.fourth.print().as_str(),
        ).concat(")")
    }
}

} // verus!
