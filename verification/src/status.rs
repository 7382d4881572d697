//! HTTP status classification.

use vstd::prelude::*;

verus! {

/// A status code signals success when it lies in `200..300`.
pub open spec fn spec_is_success(code: u16) -> bool {
    200 <= code < 300
}

/// A status code signals a server-side failure, which may pass, when it lies in `500..600`.
pub open spec fn spec_is_transient_status(code: u16) -> bool {
    500 <= code < 600
}

/// Whether `code` is a 5xx status: a server failure that another try may mend.
pub fn is_transient_status(code: u16) -> (b: bool)
    ensures
        b == spec_is_transient_status(code),
{
    500 <= code && code < 600
}

/// The transient statuses are the whole 5xx class and nothing else: every
/// code from 500 to 599 counts, and no code below 500 or above 599 does.
pub proof fn transient_statuses_are_exactly_5xx()
    ensures
        forall|code: u16| 500 <= code && code <= 599 ==> #[trigger] spec_is_transient_status(code),
        forall|code: u16| code < 500 ==> !#[trigger] spec_is_transient_status(code),
        forall|code: u16| code > 599 ==> !#[trigger] spec_is_transient_status(code),
{
}

/// The accepted statuses are the whole 2xx class and nothing else.
pub proof fn success_statuses_are_exactly_2xx()
    ensures
        forall|code: u16| 200 <= code && code <= 299 ==> #[trigger] spec_is_success(code),
        forall|code: u16| code < 200 ==> !#[trigger] spec_is_success(code),
        forall|code: u16| code > 299 ==> !#[trigger] spec_is_success(code),
{
}

/// `reqwest::StatusCode::is_success` on the status code `code`.
///
/// The code is first turned into a `StatusCode` with
/// `StatusCode::from_u16`, which accepts exactly `100..=999`; the contract
/// claims that the result is true exactly for codes in `200..300`, which is
/// what `is_success` tests, and false for codes that are no status code.
#[verifier::external_body]
fn status_code_is_success(code: u16) -> (b: bool)
    ensures
        b == spec_is_success(code),
{
    match reqwest::StatusCode::from_u16(code) {
        Ok(status) => status.is_success(),
        Err(_) => false,
    }
}

/// The response carried a status outside `200..300`.
#[derive(Debug, Clone, Copy, PartialEq, Eq)]
pub struct StatusError {
    pub code: u16,
}

/// Accept a response status: `Ok` for 2xx, otherwise an error naming the code.
pub fn check_status(code: u16) -> (res: Result<(), StatusError>)
    ensures
        res is Ok <==> spec_is_success(code),
        res matches Err(e) ==> e.code == code,
{
    if status_code_is_success(code) {
        Ok(())
    } else {
        Err(StatusError { code })
    }
}

} // verus!
