//! The retry schedule of a flaky operation.
//!
//! An operation is tried up to `max_attempts` times. The first success is
//! handed back at once. Only transient failures are retried: the caller
//! says of each failure whether it is worth another try. A failure that is
//! not, is handed back at once; a transient failure that is not the last
//! attempt is followed by a back-off sleep and a fresh attempt; after the
//! last attempt fails its error is handed back. With `max_attempts == 0`
//! nothing is attempted and the schedule reports that no attempt was made.
//!
//! The schedule is a state machine: the caller performs each action it
//! returns (run the operation, sleep) and reports what happened. Which
//! failures count as transient for downloads is `is_transient_failure`.

use vstd::prelude::*;
use crate::status::{is_transient_status, spec_is_transient_status};

verus! {

/// What kind of failure an attempt met, as far as retrying is concerned.
#[derive(Debug, Clone, Copy, PartialEq, Eq, Structural)]
pub enum FailureKind {
    /// The server answered with this non-success status code.
    Status(u16),
    /// The request or the response did not arrive in time.
    Timeout,
    /// The connection failed or broke off (refused, reset, closed early).
    Connection,
    /// Anything else, such as a malformed URL or an undecodable body.
    Other,
}

/// Transient failures are those another try may mend: a network timeout,
/// a broken connection, or a 5xx status.
pub open spec fn spec_is_transient_failure(kind: FailureKind) -> bool {
    match kind {
        FailureKind::Status(code) => spec_is_transient_status(code),
        FailureKind::Timeout => true,
        FailureKind::Connection => true,
        FailureKind::Other => false,
    }
}

/// Network timeouts and broken connections are always retried; a status
/// failure is retried exactly when it is a 5xx; anything else is not.
pub proof fn transient_failures_are_timeouts_connections_and_5xx()
    ensures
        spec_is_transient_failure(FailureKind::Timeout),
        spec_is_transient_failure(FailureKind::Connection),
        !spec_is_transient_failure(FailureKind::Other),
        forall|code: u16|
            #[trigger] spec_is_transient_failure(FailureKind::Status(code)) <==> (500 <= code
                && code <= 599),
{
}

/// Whether a failure of this kind is worth another try.
pub fn is_transient_failure(kind: FailureKind) -> (b: bool)
    ensures
        b == spec_is_transient_failure(kind),
{
    match kind {
        FailureKind::Status(code) => is_transient_status(code),
        FailureKind::Timeout => true,
        FailureKind::Connection => true,
        FailureKind::Other => false,
    }
}

/// Where a retry schedule stands.
#[derive(Debug, Clone, Copy, PartialEq, Eq, Structural)]
pub enum RetryPhase {
    /// An attempt has been requested and its outcome is awaited.
    Attempting,
    /// An attempt failed and the back-off sleep is awaited.
    Waiting,
    /// The schedule has produced its final result.
    Finished,
}

/// Why a retry schedule ended without a value.
#[derive(Debug)]
pub enum RetryError<E> {
    /// Every attempt failed; this is the error of the last one.
    Exhausted(E),
    /// An attempt failed in a way that another try would not mend; this is its error.
    NotRetryable(E),
    /// `max_attempts` was zero, so the operation never ran.
    NoAttempts,
}

/// What the caller must do next.
#[derive(Debug)]
pub enum RetryAction<T, E> {
    /// Run the operation; this is attempt number `attempt` (counted from 1).
    Attempt { attempt: u32, max_attempts: u32 },
    /// Attempt number `failed_attempt` failed; sleep for the back-off delay.
    Wait { failed_attempt: u32, max_attempts: u32 },
    /// Stop and hand this result back.
    Finish(Result<T, RetryError<E>>),
}

/// The abstract state of a retry schedule.
pub struct RetryView {
    pub max_attempts: u32,
    /// Number of attempts requested so far.
    pub attempts: u32,
    pub phase: RetryPhase,
}

/// A well-formed schedule never requests more than `max_attempts` attempts.
pub open spec fn retry_wf(v: RetryView) -> bool {
    &&& v.attempts <= v.max_attempts
    &&& v.phase == RetryPhase::Attempting ==> 1 <= v.attempts
    &&& v.phase == RetryPhase::Waiting ==> 1 <= v.attempts < v.max_attempts
}

/// Starting a schedule: attempt 1, or finish at once when no attempt is allowed.
pub open spec fn spec_start<T, E>(max_attempts: u32) -> (RetryView, RetryAction<T, E>) {
    if max_attempts == 0 {
        (
            RetryView { max_attempts, attempts: 0, phase: RetryPhase::Finished },
            RetryAction::Finish(Err(RetryError::NoAttempts)),
        )
    } else {
        (
            RetryView { max_attempts, attempts: 1, phase: RetryPhase::Attempting },
            RetryAction::Attempt { attempt: 1, max_attempts },
        )
    }
}

/// Reporting the outcome of the attempt in flight, and whether a failure
/// is transient (worth another try).
pub open spec fn spec_on_outcome<T, E>(v: RetryView, outcome: Result<T, E>, retryable: bool) -> (
    RetryView,
    RetryAction<T, E>,
) {
    match outcome {
        Ok(value) => (
            RetryView { phase: RetryPhase::Finished, ..v },
            RetryAction::Finish(Ok(value)),
        ),
        Err(e) => if !retryable {
            (
                RetryView { phase: RetryPhase::Finished, ..v },
                RetryAction::Finish(Err(RetryError::NotRetryable(e))),
            )
        } else if v.attempts < v.max_attempts {
            (
                RetryView { phase: RetryPhase::Waiting, ..v },
                RetryAction::Wait { failed_attempt: v.attempts, max_attempts: v.max_attempts },
            )
        } else {
            (
                RetryView { phase: RetryPhase::Finished, ..v },
                RetryAction::Finish(Err(RetryError::Exhausted(e))),
            )
        },
    }
}

/// Reporting that the back-off sleep is over: the next attempt is requested.
pub open spec fn spec_on_woken<T, E>(v: RetryView) -> (RetryView, RetryAction<T, E>) {
    (
        RetryView { attempts: (v.attempts + 1) as u32, phase: RetryPhase::Attempting, ..v },
        RetryAction::Attempt { attempt: (v.attempts + 1) as u32, max_attempts: v.max_attempts },
    )
}

/// The schedule fed with `outcomes`, one per attempt (each with whether a
/// failure is transient), from a state whose attempt is in flight, sleeping
/// through every `Wait`. Ends at the first `Finish`, or at the pending
/// attempt when the outcomes run out.
pub open spec fn spec_drive<T, E>(v: RetryView, outcomes: Seq<(Result<T, E>, bool)>) -> (
    RetryView,
    RetryAction<T, E>,
)
    decreases outcomes.len(),
{
    if outcomes.len() == 0 {
        (v, RetryAction::Attempt { attempt: v.attempts, max_attempts: v.max_attempts })
    } else {
        let (v1, a1) = spec_on_outcome(v, outcomes[0].0, outcomes[0].1);
        match a1 {
            RetryAction::Wait { .. } => {
                let (v2, _a2) = spec_on_woken::<T, E>(v1);
                spec_drive(v2, outcomes.drop_first())
            },
            _ => (v1, a1),
        }
    }
}

/// A whole retry run: start, then feed the attempts' outcomes in order.
pub open spec fn spec_run<T, E>(max_attempts: u32, outcomes: Seq<(Result<T, E>, bool)>) -> (
    RetryView,
    RetryAction<T, E>,
) {
    let (v, a) = spec_start::<T, E>(max_attempts);
    if max_attempts == 0 {
        (v, a)
    } else {
        spec_drive(v, outcomes)
    }
}

proof fn lemma_drive_first_success<T, E>(v: RetryView, outcomes: Seq<(Result<T, E>, bool)>, k: int)
    requires
        v.phase == RetryPhase::Attempting,
        retry_wf(v),
        0 <= k < outcomes.len(),
        v.attempts + k <= v.max_attempts,
        outcomes[k].0 is Ok,
        forall|j: int| 0 <= j < k ==> (#[trigger] outcomes[j]).0 is Err && outcomes[j].1,
    ensures
        spec_drive(v, outcomes) == (
            RetryView {
                max_attempts: v.max_attempts,
                attempts: (v.attempts + k) as u32,
                phase: RetryPhase::Finished,
            },
            RetryAction::<T, E>::Finish(Ok(outcomes[k].0->Ok_0)),
        ),
    decreases k,
{
    if k > 0 {
        assert(outcomes[0].0 is Err && outcomes[0].1);
        let (v1, _a1) = spec_on_outcome(v, outcomes[0].0, outcomes[0].1);
        let (v2, _a2) = spec_on_woken::<T, E>(v1);
        let rest = outcomes.drop_first();
        assert forall|j: int| 0 <= j < k - 1 implies (#[trigger] rest[j]).0 is Err && rest[j].1 by {
            assert(rest[j] == outcomes[j + 1]);
        }
        lemma_drive_first_success(v2, rest, k - 1);
    }
}

proof fn lemma_drive_all_fail<T, E>(v: RetryView, outcomes: Seq<(Result<T, E>, bool)>)
    requires
        v.phase == RetryPhase::Attempting,
        retry_wf(v),
        outcomes.len() > v.max_attempts - v.attempts,
        forall|j: int| 0 <= j <= v.max_attempts - v.attempts ==> (#[trigger] outcomes[j]).0 is Err && outcomes[j].1,
    ensures
        spec_drive(v, outcomes) == (
            RetryView {
                max_attempts: v.max_attempts,
                attempts: v.max_attempts,
                phase: RetryPhase::Finished,
            },
            RetryAction::<T, E>::Finish(
                Err(RetryError::Exhausted(outcomes[v.max_attempts - v.attempts].0->Err_0)),
            ),
        ),
    decreases v.max_attempts - v.attempts,
{
    assert(outcomes[0].0 is Err && outcomes[0].1);
    if v.attempts < v.max_attempts {
        let (v1, _a1) = spec_on_outcome(v, outcomes[0].0, outcomes[0].1);
        let (v2, _a2) = spec_on_woken::<T, E>(v1);
        let rest = outcomes.drop_first();
        assert forall|j: int| 0 <= j <= v2.max_attempts - v2.attempts implies (#[trigger] rest[j]).0 is Err && rest[j].1 by {
            assert(rest[j] == outcomes[j + 1]);
        }
        lemma_drive_all_fail(v2, rest);
        assert(rest[v2.max_attempts - v2.attempts] == outcomes[v.max_attempts - v.attempts]);
    }
}

proof fn lemma_drive_wf<T, E>(v: RetryView, outcomes: Seq<(Result<T, E>, bool)>)
    requires
        v.phase == RetryPhase::Attempting,
        retry_wf(v),
    ensures
        retry_wf(spec_drive(v, outcomes).0),
        spec_drive(v, outcomes).0.max_attempts == v.max_attempts,
    decreases outcomes.len(),
{
    if outcomes.len() > 0 {
        let (v1, a1) = spec_on_outcome(v, outcomes[0].0, outcomes[0].1);
        if a1 is Wait {
            let (v2, _a2) = spec_on_woken::<T, E>(v1);
            lemma_drive_wf(v2, outcomes.drop_first());
        }
    }
}

/// Retrying hands back the first success at once: when the first `k`
/// attempts fail transiently and attempt `k + 1` succeeds, within `max_attempts`, the
/// run finishes with that attempt's value after exactly `k + 1` attempts.
pub proof fn retry_returns_first_success<T, E>(
    max_attempts: u32,
    outcomes: Seq<(Result<T, E>, bool)>,
    k: int,
)
    requires
        0 <= k < max_attempts,
        k < outcomes.len(),
        outcomes[k].0 is Ok,
        forall|j: int| 0 <= j < k ==> (#[trigger] outcomes[j]).0 is Err && outcomes[j].1,
    ensures
        spec_run(max_attempts, outcomes) == (
            RetryView { max_attempts, attempts: (k + 1) as u32, phase: RetryPhase::Finished },
            RetryAction::<T, E>::Finish(Ok(outcomes[k].0->Ok_0)),
        ),
{
    let (v, _a) = spec_start::<T, E>(max_attempts);
    lemma_drive_first_success(v, outcomes, k);
}

/// Retrying gives up after exactly `max_attempts` transiently failed
/// attempts and hands back the error of the last one.
pub proof fn retry_gives_up_with_last_error<T, E>(max_attempts: u32, outcomes: Seq<(Result<T, E>, bool)>)
    requires
        max_attempts >= 1,
        outcomes.len() >= max_attempts,
        forall|j: int| 0 <= j < max_attempts ==> (#[trigger] outcomes[j]).0 is Err && outcomes[j].1,
    ensures
        spec_run(max_attempts, outcomes) == (
            RetryView { max_attempts, attempts: max_attempts, phase: RetryPhase::Finished },
            RetryAction::<T, E>::Finish(
                Err(RetryError::Exhausted(outcomes[max_attempts - 1].0->Err_0)),
            ),
        ),
{
    let (v, _a) = spec_start::<T, E>(max_attempts);
    lemma_drive_all_fail(v, outcomes);
}

proof fn lemma_drive_permanent_failure<T, E>(
    v: RetryView,
    outcomes: Seq<(Result<T, E>, bool)>,
    k: int,
)
    requires
        v.phase == RetryPhase::Attempting,
        retry_wf(v),
        0 <= k < outcomes.len(),
        v.attempts + k <= v.max_attempts,
        outcomes[k].0 is Err,
        !outcomes[k].1,
        forall|j: int| 0 <= j < k ==> (#[trigger] outcomes[j]).0 is Err && outcomes[j].1,
    ensures
        spec_drive(v, outcomes) == (
            RetryView {
                max_attempts: v.max_attempts,
                attempts: (v.attempts + k) as u32,
                phase: RetryPhase::Finished,
            },
            RetryAction::<T, E>::Finish(Err(RetryError::NotRetryable(outcomes[k].0->Err_0))),
        ),
    decreases k,
{
    if k > 0 {
        assert(outcomes[0].0 is Err && outcomes[0].1);
        let (v1, _a1) = spec_on_outcome(v, outcomes[0].0, outcomes[0].1);
        let (v2, _a2) = spec_on_woken::<T, E>(v1);
        let rest = outcomes.drop_first();
        assert forall|j: int| 0 <= j < k - 1 implies (#[trigger] rest[j]).0 is Err && rest[j].1 by {
            assert(rest[j] == outcomes[j + 1]);
        }
        lemma_drive_permanent_failure(v2, rest, k - 1);
    }
}

/// A failure that is not transient ends the run at once: when the first
/// `k` attempts fail transiently and attempt `k + 1` fails for good, within
/// `max_attempts`, the run hands back that failure's error after exactly
/// `k + 1` attempts, with no further sleep or attempt.
pub proof fn retry_stops_at_permanent_failure<T, E>(
    max_attempts: u32,
    outcomes: Seq<(Result<T, E>, bool)>,
    k: int,
)
    requires
        0 <= k < max_attempts,
        k < outcomes.len(),
        outcomes[k].0 is Err,
        !outcomes[k].1,
        forall|j: int| 0 <= j < k ==> (#[trigger] outcomes[j]).0 is Err && outcomes[j].1,
    ensures
        spec_run(max_attempts, outcomes) == (
            RetryView { max_attempts, attempts: (k + 1) as u32, phase: RetryPhase::Finished },
            RetryAction::<T, E>::Finish(Err(RetryError::NotRetryable(outcomes[k].0->Err_0))),
        ),
{
    let (v, _a) = spec_start::<T, E>(max_attempts);
    lemma_drive_permanent_failure(v, outcomes, k);
}

/// Attempts are numbered 1, 2, 3, ... in turn: a transient failure of
/// attempt `a` with attempts to spare asks for a sleep after attempt `a`,
/// and waking from it asks for attempt `a + 1`.
/// A transient failure of the last allowed attempt ends the run with its
/// error, and no sleep.
pub proof fn retry_numbers_attempts_in_turn<T, E>(v: RetryView, e: E)
    requires
        v.phase == RetryPhase::Attempting,
        retry_wf(v),
    ensures
        v.attempts < v.max_attempts ==> spec_on_outcome::<T, E>(v, Err(e), true).1
            == (RetryAction::<T, E>::Wait {
            failed_attempt: v.attempts,
            max_attempts: v.max_attempts,
        }),
        v.attempts < v.max_attempts ==> spec_on_woken::<T, E>(
            spec_on_outcome::<T, E>(v, Err(e), true).0,
        ).1 == (RetryAction::<T, E>::Attempt {
            attempt: (v.attempts + 1) as u32,
            max_attempts: v.max_attempts,
        }),
        v.attempts < v.max_attempts ==> spec_on_woken::<T, E>(
            spec_on_outcome::<T, E>(v, Err(e), true).0,
        ).0.attempts == v.attempts + 1,
        v.attempts == v.max_attempts ==> spec_on_outcome::<T, E>(v, Err(e), true).1
            == RetryAction::<T, E>::Finish(Err(RetryError::Exhausted(e))),
{
}

/// With `max_attempts == 0` the operation never runs and the run reports it.
pub proof fn retry_without_attempts<T, E>(outcomes: Seq<(Result<T, E>, bool)>)
    ensures
        spec_run(0, outcomes) == (
            RetryView { max_attempts: 0, attempts: 0, phase: RetryPhase::Finished },
            RetryAction::<T, E>::Finish(Err(RetryError::NoAttempts)),
        ),
{
}

/// Whatever the outcomes, a run never requests more than `max_attempts` attempts.
pub proof fn retry_attempts_bounded<T, E>(max_attempts: u32, outcomes: Seq<(Result<T, E>, bool)>)
    ensures
        spec_run(max_attempts, outcomes).0.attempts <= max_attempts,
        retry_wf(spec_run(max_attempts, outcomes).0),
{
    if max_attempts > 0 {
        let (v, _a) = spec_start::<T, E>(max_attempts);
        lemma_drive_wf(v, outcomes);
    }
}

/// A running retry schedule.
pub struct RetryState {
    max_attempts: u32,
    attempts: u32,
    phase: RetryPhase,
}

impl View for RetryState {
    type V = RetryView;

    closed spec fn view(&self) -> RetryView {
        RetryView { max_attempts: self.max_attempts, attempts: self.attempts, phase: self.phase }
    }
}

impl RetryState {
    #[verifier::type_invariant]
    closed spec fn inv(self) -> bool {
        retry_wf(self@)
    }

    /// Start a schedule allowing `max_attempts` attempts in all.
    pub fn start<T, E>(max_attempts: u32) -> (res: (RetryState, RetryAction<T, E>))
        ensures
            (res.0@, res.1) == spec_start::<T, E>(max_attempts),
            retry_wf(res.0@),
    {
        if max_attempts == 0 {
            (
                RetryState { max_attempts, attempts: 0, phase: RetryPhase::Finished },
                RetryAction::Finish(Err(RetryError::NoAttempts)),
            )
        } else {
            (
                RetryState { max_attempts, attempts: 1, phase: RetryPhase::Attempting },
                RetryAction::Attempt { attempt: 1, max_attempts },
            )
        }
    }

    /// Where the schedule stands.
    pub fn phase(&self) -> (p: RetryPhase)
        ensures
            p == self@.phase,
    {
        self.phase
    }

    /// Report the outcome of the attempt in flight; `retryable` says whether
    /// a failure is transient, so that another try may mend it.
    pub fn on_outcome<T, E>(&mut self, outcome: Result<T, E>, retryable: bool) -> (action:
        RetryAction<T, E>)
        requires
            old(self)@.phase == RetryPhase::Attempting,
        ensures
            (final(self)@, action) == spec_on_outcome(old(self)@, outcome, retryable),
            retry_wf(final(self)@),
    {
        proof {
            use_type_invariant(&*self);
        }
        match outcome {
            Ok(value) => {
                *self = RetryState { phase: RetryPhase::Finished, ..*self };
                RetryAction::Finish(Ok(value))
            },
            Err(e) => {
                if !retryable {
                    *self = RetryState { phase: RetryPhase::Finished, ..*self };
                    RetryAction::Finish(Err(RetryError::NotRetryable(e)))
                } else if self.attempts < self.max_attempts {
                    *self = RetryState { phase: RetryPhase::Waiting, ..*self };
                    RetryAction::Wait {
                        failed_attempt: self.attempts,
                        max_attempts: self.max_attempts,
                    }
                } else {
                    *self = RetryState { phase: RetryPhase::Finished, ..*self };
                    RetryAction::Finish(Err(RetryError::Exhausted(e)))
                }
            },
        }
    }

    /// Report that the back-off sleep is over.
    pub fn on_woken<T, E>(&mut self) -> (action: RetryAction<T, E>)
        requires
            old(self)@.phase == RetryPhase::Waiting,
        ensures
            (final(self)@, action) == spec_on_woken::<T, E>(old(self)@),
            retry_wf(final(self)@),
    {
        proof {
            use_type_invariant(&*self);
        }
        let next = self.attempts + 1;
        *self = RetryState { attempts: next, phase: RetryPhase::Attempting, ..*self };
        RetryAction::Attempt { attempt: next, max_attempts: self.max_attempts }
    }
}

} // verus!
