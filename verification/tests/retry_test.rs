use learning_rust::retry::{
    is_transient_failure, FailureKind, RetryAction, RetryError, RetryPhase, RetryState,
};

/// Drive a schedule with the given outcomes, whose errors are status codes
/// retried when 5xx; returns the final result, the number of attempts run
/// and the failed attempts after which it slept.
fn run(max_attempts: u32, outcomes: &[Result<&'static str, u16>]) -> (Result<&'static str, RetryError<u16>>, usize, Vec<u32>) {
    let (mut state, mut action) = RetryState::start(max_attempts);
    let mut attempts = 0usize;
    let mut sleeps = Vec::new();
    loop {
        match action {
            RetryAction::Attempt { attempt, max_attempts: m } => {
                assert_eq!(m, max_attempts);
                attempts += 1;
                assert_eq!(attempt as usize, attempts);
                assert_eq!(state.phase(), RetryPhase::Attempting);
                let outcome = outcomes[attempts - 1];
                let retryable = match outcome {
                    Ok(_) => true,
                    Err(code) => is_transient_failure(FailureKind::Status(code)),
                };
                action = state.on_outcome(outcome, retryable);
            }
            RetryAction::Wait { failed_attempt, max_attempts: m } => {
                assert_eq!(m, max_attempts);
                assert_eq!(state.phase(), RetryPhase::Waiting);
                sleeps.push(failed_attempt);
                action = state.on_woken();
            }
            RetryAction::Finish(r) => {
                assert_eq!(state.phase(), RetryPhase::Finished);
                return (r, attempts, sleeps);
            }
        }
    }
}

#[test]
fn succeeds_on_first_attempt_without_sleeping() {
    let (r, attempts, sleeps) = run(3, &[Ok("body")]);
    assert!(matches!(r, Ok("body")));
    assert_eq!(attempts, 1);
    assert!(sleeps.is_empty());
}

#[test]
fn returns_first_success_after_failures() {
    let (r, attempts, sleeps) = run(3, &[Err(500), Err(502), Ok("third")]);
    assert!(matches!(r, Ok("third")));
    assert_eq!(attempts, 3);
    assert_eq!(sleeps, vec![1, 2]);
}

#[test]
fn persistent_failure_gives_up_with_last_error() {
    // A server that always answers 503, with two attempts allowed.
    let (r, attempts, sleeps) = run(2, &[Err(503), Err(504), Ok("never")]);
    assert!(matches!(r, Err(RetryError::Exhausted(504))));
    assert_eq!(attempts, 2);
    assert_eq!(sleeps, vec![1]);
}

#[test]
fn zero_attempts_runs_nothing() {
    let (r, attempts, sleeps) = run(0, &[Ok("never")]);
    assert!(matches!(r, Err(RetryError::NoAttempts)));
    assert_eq!(attempts, 0);
    assert!(sleeps.is_empty());
}

#[test]
fn single_attempt_never_sleeps() {
    let (r, attempts, sleeps) = run(1, &[Err(503)]);
    assert!(matches!(r, Err(RetryError::Exhausted(503))));
    assert_eq!(attempts, 1);
    assert!(sleeps.is_empty());
}

#[test]
fn permanent_failure_is_not_retried() {
    // A 404 with attempts to spare: one attempt, no sleep, its error back.
    let (r, attempts, sleeps) = run(3, &[Err(404), Ok("never")]);
    assert!(matches!(r, Err(RetryError::NotRetryable(404))));
    assert_eq!(attempts, 1);
    assert!(sleeps.is_empty());
}

#[test]
fn permanent_failure_after_transient_ones_stops_the_run() {
    let (r, attempts, sleeps) = run(5, &[Err(503), Err(404), Ok("never")]);
    assert!(matches!(r, Err(RetryError::NotRetryable(404))));
    assert_eq!(attempts, 2);
    assert_eq!(sleeps, vec![1]);
}

#[test]
fn transient_failures_are_timeouts_broken_connections_and_5xx() {
    assert!(is_transient_failure(FailureKind::Timeout));
    assert!(is_transient_failure(FailureKind::Connection));
    assert!(is_transient_failure(FailureKind::Status(500)));
    assert!(is_transient_failure(FailureKind::Status(599)));
    assert!(!is_transient_failure(FailureKind::Status(404)));
    assert!(!is_transient_failure(FailureKind::Status(600)));
    assert!(!is_transient_failure(FailureKind::Status(499)));
    assert!(!is_transient_failure(FailureKind::Other));
}
