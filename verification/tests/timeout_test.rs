use learning_rust::timeout::{settle_timed, TimeoutError};
use std::time::Duration;

fn elapsed_outcome() -> Result<Result<String, String>, tokio::time::error::Elapsed> {
    let rt = tokio::runtime::Builder::new_current_thread()
        .enable_time()
        .build()
        .expect("runtime");
    rt.block_on(async {
        tokio::time::timeout(
            Duration::from_millis(5),
            std::future::pending::<Result<String, String>>(),
        )
        .await
    })
}

#[test]
fn missed_deadline_is_reported_as_elapsed() {
    let outcome = elapsed_outcome();
    assert!(outcome.is_err());
    assert!(matches!(settle_timed(outcome), Err(TimeoutError::Elapsed)));
}

#[test]
fn result_within_deadline_passes_through() {
    let ok: Result<Result<String, String>, tokio::time::error::Elapsed> = Ok(Ok("body".to_string()));
    assert!(matches!(settle_timed(ok), Ok(ref b) if b == "body"));
    let failed: Result<Result<String, String>, tokio::time::error::Elapsed> =
        Ok(Err("HTTP 404".to_string()));
    assert!(matches!(settle_timed(failed), Err(TimeoutError::Failed(ref e)) if e == "HTTP 404"));
}
