//! Individual pass/fail rules that can be attached to an expectation.

use core::marker::PhantomData;
use vstd::prelude::*;
use vstd::string::StringExecFns;

use crate::text::{i64_decimal, spec_decimal};
use crate::validator::{debug_text, Validator};

verus! {

/// What a single constraint reports at verification time.
pub type ConstraintResult = Result<(), ConstraintError>;

/// The ways in which a single constraint can fail.
#[derive(Clone, Debug, PartialEq)]
pub enum ConstraintError {
    /// Reported by [`AlwaysFail`], which never passes.
    AlwaysFail,
    /// The method was called the given number of times fewer than expected.
    CalledTooFewTimes(i64),
    /// The method was called the given number of times more than expected.
    CalledTooManyTimes(i64),
    /// The method was called although no call was expected.
    CallNotExpected,
    /// An error raised by a user-supplied constraint.
    Custom(String),
    /// A parameter failed validation: expected description, received description.
    MismatchedParams(String, String),
}

impl ConstraintError {
    /// The text shown to the user for this failure.
    pub open spec fn spec_message(&self) -> Seq<char> {
        match self {
            ConstraintError::AlwaysFail => "Expectation will always fail."@,
            ConstraintError::CalledTooFewTimes(times) => "Called "@ + spec_decimal(*times as int)
                + " times fewer than expected."@,
            ConstraintError::CalledTooManyTimes(times) => "Called "@ + spec_decimal(*times as int)
                + " times more than expected."@,
            ConstraintError::CallNotExpected => "Called when not expected."@,
            ConstraintError::Custom(msg) => msg@,
            ConstraintError::MismatchedParams(expected, received) =>
                "Called with unexpected parameters:\n  Expected: "@ + expected@
                + "\n  Received: "@ + received@,
        }
    }

    /// Render this failure for the user.
    pub fn message(&self) -> (r: String)
        ensures
            r@ == self.spec_message(),
    {
        match self {
            ConstraintError::AlwaysFail => String::from_str("Expectation will always fail."),
            ConstraintError::CalledTooFewTimes(times) => String::from_str("Called ").concat(
                i64_decimal(*times).as_str(),
            ).concat(" times fewer than expected."),
            ConstraintError::CalledTooManyTimes(times) => String::from_str("Called ").concat(
                i64_decimal(*times).as_str(),
            ).concat(" times more than expected."),
            ConstraintError::CallNotExpected => String::from_str("Called when not expected."),
            ConstraintError::Custom(msg) => msg.clone(),
            ConstraintError::MismatchedParams(expected, received) => String::from_str(
                "Called with unexpected parameters:\n  Expected: ",
            ).concat(expected.as_str()).concat("\n  Received: ").concat(received.as_str()),
        }
    }
}

/// A method must be called an exact number of times.
///
/// The remaining count starts at the expected call count and is decremented
/// once per matching call; the rule passes exactly when it reaches zero.
pub struct Times {
    remaining: i64,
    target: Ghost<int>,
    calls: Ghost<int>,
}

/// The outcome a [`Times`] rule with the given remaining count reports.
pub open spec fn spec_times_report(remaining: int) -> ConstraintResult {
    if remaining < 0 {
        Err(ConstraintError::CalledTooManyTimes((0 - remaining) as i64))
    } else if remaining > 0 {
        Err(ConstraintError::CalledTooFewTimes(remaining as i64))
    } else {
        Ok(())
    }
}

impl Times {
    /// The expected call count this rule was created with.
    pub closed spec fn spec_target(&self) -> int {
        self.target@
    }

    /// How many matching calls this rule has seen so far.
    pub closed spec fn spec_calls(&self) -> int {
        self.calls@
    }

    /// The count still outstanding: target minus calls seen.
    pub closed spec fn spec_remaining(&self) -> int {
        self.remaining as int
    }

    /// The remaining count is exactly the target minus the calls seen.
    pub closed spec fn wf(&self) -> bool {
        &&& self.calls@ >= 0
        &&& self.remaining as int == self.target@ - self.calls@
    }

    /// One more call can be counted without leaving `i64`.
    pub open spec fn can_count(&self) -> bool {
        self.spec_remaining() > i64::MIN
    }

    /// What intact bookkeeping means: the remaining count is the target
    /// minus the calls seen, so it is zero exactly when the method was
    /// called exactly as often as expected.
    pub proof fn lemma_remaining_tracks_calls(&self)
        requires
            self.wf(),
        ensures
            self.spec_remaining() == self.spec_target() - self.spec_calls(),
            self.spec_calls() >= 0,
    {
    }

    pub fn new(expected_calls: i64) -> (r: Self)
        ensures
            r.wf(),
            r.spec_target() == expected_calls,
            r.spec_calls() == 0,
            r.spec_remaining() == expected_calls,
    {
        Times { remaining: expected_calls, target: Ghost(expected_calls as int), calls: Ghost(0) }
    }

    /// Count one matching call.
    pub fn handle_call(&mut self)
        requires
            old(self).can_count(),
        ensures
            old(self).wf() ==> final(self).wf(),
            final(self).spec_target() == old(self).spec_target(),
            final(self).spec_calls() == old(self).spec_calls() + 1,
            final(self).spec_remaining() == old(self).spec_remaining() - 1,
    {
        self.calls = Ghost(self.calls@ + 1);
        self.remaining = self.remaining - 1;
    }

    /// Report whether the method was called exactly as often as expected.
    pub fn verify(&self) -> (r: ConstraintResult)
        requires
            self.can_count(),
        ensures
            r == spec_times_report(self.spec_remaining()),
            self.wf() ==> (r is Ok <==> self.spec_calls() == self.spec_target()),
    {
        if self.remaining < 0 {
            Err(ConstraintError::CalledTooManyTimes(-self.remaining))
        } else if self.remaining > 0 {
            Err(ConstraintError::CalledTooFewTimes(self.remaining))
        } else {
            Ok(())
        }
    }
}

/// A rule that passes unconditionally; useful when testing the engine itself.
pub struct AlwaysPass;

impl AlwaysPass {
    pub fn verify(&self) -> (r: ConstraintResult)
        ensures
            r is Ok,
    {
        Ok(())
    }
}

/// A rule that fails unconditionally; useful when testing the engine itself.
pub struct AlwaysFail;

impl AlwaysFail {
    pub fn verify(&self) -> (r: ConstraintResult)
        ensures
            r == Err::<(), ConstraintError>(ConstraintError::AlwaysFail),
    {
        Err(ConstraintError::AlwaysFail)
    }
}

/// A method must be called with parameters that a [`Validator`] accepts.
///
/// The rule is the logical AND over the whole call history: the first
/// rejected call makes it fail for good, and that call's rendered parameters
/// are kept for the diagnostic.
pub struct Params<I, V: Validator<I>> {
    /// `true` while every call so far carried acceptable parameters.
    is_valid: bool,
    received_param_msg: String,
    validator: V,
    _input: PhantomData<I>,
}

impl<I, V: Validator<I>> Params<I, V> {
    /// Whether every call seen so far carried acceptable parameters.
    pub closed spec fn spec_is_valid(&self) -> bool {
        self.is_valid
    }

    /// The rendering of the first rejected call's parameters.
    pub closed spec fn spec_received(&self) -> String {
        self.received_param_msg
    }

    /// The validator every matching call is judged by.
    pub closed spec fn spec_validator(&self) -> V {
        self.validator
    }

    pub fn new(validator: V) -> (r: Self)
        ensures
            r.spec_is_valid(),
            r.spec_validator() == validator,
    {
        Params {
            is_valid: true,
            received_param_msg: String::new(),
            validator,
            _input: PhantomData,
        }
    }

    /// Judge one matching call's parameters.
    ///
    /// Once a call has been rejected, later calls cannot make the rule valid
    /// again.
    pub fn handle_call(&mut self, params: &I)
        ensures
            final(self).spec_validator() == old(self).spec_validator(),
            old(self).spec_is_valid() ==> old(self).spec_validator().spec_valid(
                params,
                final(self).spec_is_valid(),
            ),
            !old(self).spec_is_valid() ==> !final(self).spec_is_valid(),
    {
        if self.is_valid {
            self.is_valid = self.validator.validate(params);
            if !self.is_valid {
                self.received_param_msg = debug_text(params);
            }
        }
    }

    /// Report whether every call seen carried acceptable parameters.
    pub fn verify(&self) -> (r: ConstraintResult)
        ensures
            r is Ok <==> self.spec_is_valid(),
            !self.spec_is_valid() ==> (r matches Err(
                ConstraintError::MismatchedParams(_expected, received),
            ) && received == self.spec_received()),
    {
        if self.is_valid {
            Ok(())
        } else {
            let expected_msg = self.validator.print();
            let received_msg = self.received_param_msg.clone();
            Err(ConstraintError::MismatchedParams(expected_msg, received_msg))
        }
    }
}

/// A mock constraint for exercising the engine itself: it records whether it
/// was told about a call, and always passes verification.
pub struct ConstraintMock {
    handle_call_expected: bool,
    handle_call_called: bool,
}

impl ConstraintMock {
    /// Whether a call report is expected before the mock is checked.
    pub closed spec fn spec_expected(&self) -> bool {
        self.handle_call_expected
    }

    /// Whether a call has been reported.
    pub closed spec fn spec_called(&self) -> bool {
        self.handle_call_called
    }

    pub fn new() -> (r: Self)
        ensures
            !r.spec_expected(),
            !r.spec_called(),
    {
        ConstraintMock { handle_call_expected: false, handle_call_called: false }
    }

    /// Demand that `handle_call` be invoked before the mock is checked.
    pub fn expect_handle_call(&mut self)
        ensures
            final(self).spec_expected(),
            final(self).spec_called() == old(self).spec_called(),
    {
        self.handle_call_expected = true;
    }

    /// Record that a call was reported.
    pub fn handle_call(&mut self)
        ensures
            final(self).spec_called(),
            final(self).spec_expected() == old(self).spec_expected(),
    {
        self.handle_call_called = true;
    }

    pub fn verify(&self) -> (r: ConstraintResult)
        ensures
            r is Ok,
    {
        Ok(())
    }

    /// Whether every expected call report arrived; a test checks this once
    /// the mock is done with.
    pub fn satisfied(&self) -> (r: bool)
        ensures
            r == (self.spec_expected() ==> self.spec_called()),
    {
        !self.handle_call_expected || self.handle_call_called
    }
}

/// One rule attached to an expectation; all rules of an expectation must pass
/// for the expectation to pass.
pub enum Constraint<I, V: Validator<I>> {
    /// Passes unconditionally.
    AlwaysPass(AlwaysPass),
    /// Fails unconditionally.
    AlwaysFail(AlwaysFail),
    /// The method must be called an exact number of times.
    Times(Times),
    /// Every matching call's parameters must pass a validator.
    Params(Params<I, V>),
    /// Records calls and always passes; for exercising the engine itself.
    Mock(ConstraintMock),
}

impl<I, V: Validator<I>> Constraint<I, V> {
    /// One more call can be counted without leaving `i64`.
    pub open spec fn can_count(&self) -> bool {
        match self {
            Constraint::Times(t) => t.can_count(),
            _ => true,
        }
    }

    /// The count bookkeeping of a [`Times`] rule is intact.
    pub open spec fn wf(&self) -> bool {
        match self {
            Constraint::Times(t) => t.wf(),
            _ => true,
        }
    }

    /// Whether this rule passes verification in its current state.
    pub open spec fn spec_passes(&self) -> bool {
        match self {
            Constraint::AlwaysPass(_) => true,
            Constraint::AlwaysFail(_) => false,
            Constraint::Times(t) => t.spec_remaining() == 0,
            Constraint::Params(p) => p.spec_is_valid(),
            Constraint::Mock(_) => true,
        }
    }

    /// Which results `verify` may report in this state.
    pub open spec fn spec_reports(&self, r: ConstraintResult) -> bool {
        match self {
            Constraint::AlwaysPass(_) => r is Ok,
            Constraint::AlwaysFail(_) => r == Err::<(), ConstraintError>(
                ConstraintError::AlwaysFail,
            ),
            Constraint::Times(t) => r == spec_times_report(t.spec_remaining()),
            Constraint::Params(p) => {
                &&& r is Ok <==> p.spec_is_valid()
                &&& !p.spec_is_valid() ==> (r matches Err(
                    ConstraintError::MismatchedParams(_expected, received),
                ) && received == p.spec_received())
            },
            Constraint::Mock(_) => r is Ok,
        }
    }

    /// How one matching call takes this rule from its old state to its new
    /// one.
    pub open spec fn spec_handles(pre: Self, post: Self, params: &I) -> bool {
        match pre {
            Constraint::AlwaysPass(_) => post == pre,
            Constraint::AlwaysFail(_) => post == pre,
            Constraint::Times(t) => post matches Constraint::Times(t2) && {
                &&& t2.spec_target() == t.spec_target()
                &&& t2.spec_calls() == t.spec_calls() + 1
                &&& t2.spec_remaining() == t.spec_remaining() - 1
                &&& t.wf() ==> t2.wf()
            },
            Constraint::Params(p) => post matches Constraint::Params(p2) && {
                &&& p2.spec_validator() == p.spec_validator()
                &&& p.spec_is_valid() ==> p.spec_validator().spec_valid(
                    params,
                    p2.spec_is_valid(),
                )
                &&& !p.spec_is_valid() ==> !p2.spec_is_valid()
            },
            Constraint::Mock(m) => post matches Constraint::Mock(m2) && {
                &&& m2.spec_expected() == m.spec_expected()
                &&& m2.spec_called()
            },
        }
    }

    /// Tell this rule that a matching call arrived with the given parameters.
    pub fn handle_call(&mut self, params: &I)
        requires
            old(self).can_count(),
        ensures
            Self::spec_handles(*old(self), *final(self), params),
    {
        match self {
            Constraint::AlwaysPass(_) => (),
            Constraint::AlwaysFail(_) => (),
            Constraint::Times(t) => t.handle_call(),
            Constraint::Params(p) => p.handle_call(params),
            Constraint::Mock(m) => m.handle_call(),
        }
    }

    /// Report this rule's outcome for the calls seen so far.
    pub fn verify(&self) -> (r: ConstraintResult)
        requires
            self.can_count(),
        ensures
            self.spec_reports(r),
            r is Ok <==> self.spec_passes(),
    {
        match self {
            Constraint::AlwaysPass(a) => a.verify(),
            Constraint::AlwaysFail(a) => a.verify(),
            Constraint::Times(t) => t.verify(),
            Constraint::Params(p) => p.verify(),
            Constraint::Mock(m) => m.verify(),
        }
    }
}

} // verus!
