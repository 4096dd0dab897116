use ctranslate2_src_build_support::fetch::{
    fetch_after_extract, fetch_after_response, fetch_start, FetchAction, Response, MAX_ATTEMPTS,
};
use ctranslate2_src_build_support::BuildError;

/// Drives a fetch against a server that answers with `responses` in turn,
/// counting the requests made.
fn drive(idempotent: bool, dest_exists: bool, responses: &[Response], extract_ok: bool) -> (usize, Result<(), BuildError>) {
    let mut calls = 0usize;
    let mut action = fetch_start(idempotent, dest_exists);
    loop {
        match action {
            FetchAction::Request => {
                let r = responses.get(calls).copied().unwrap_or(Response::Unreachable);
                calls += 1;
                action = fetch_after_response(calls as u32, r);
            }
            FetchAction::Extract => action = fetch_after_extract(extract_ok),
            FetchAction::Finish(r) => return (calls, r),
        }
    }
}

#[test]
fn idempotent_existing_destination_makes_no_call() {
    let first = drive(true, false, &[Response::Status(200)], true);
    assert_eq!(first, (1, Ok(())));
    let second = drive(true, true, &[Response::Status(200)], true);
    assert_eq!(second, (0, Ok(())));
}

#[test]
fn non_idempotent_fetch_requests_even_if_present() {
    assert_eq!(fetch_start(false, true), FetchAction::Request);
    assert_eq!(fetch_start(true, true), FetchAction::Finish(Ok(())));
}

#[test]
fn not_found_is_terminal_after_one_call() {
    let r = drive(false, false, &[Response::Status(404), Response::Status(200)], true);
    assert_eq!(r, (1, Err(BuildError::NotFound)));
}

#[test]
fn transient_failures_retry_three_times() {
    let r = drive(
        false,
        false,
        &[Response::Status(500), Response::Status(502), Response::Status(503), Response::Status(200)],
        true,
    );
    assert_eq!(r, (3, Err(BuildError::NetworkError { status: Some(503) })));
    let r = drive(false, false, &[], true);
    assert_eq!(r, (MAX_ATTEMPTS as usize, Err(BuildError::NetworkError { status: None })));
}

#[test]
fn success_after_retry() {
    let r = drive(false, false, &[Response::Unreachable, Response::Status(201)], true);
    assert_eq!(r, (2, Ok(())));
}

#[test]
fn extraction_failure_is_not_retried() {
    let r = drive(false, false, &[Response::Status(200)], false);
    assert_eq!(r, (1, Err(BuildError::ExtractionError)));
}

#[test]
fn last_attempt_reports_failure() {
    assert_eq!(fetch_after_response(3, Response::Status(429)), FetchAction::Finish(Err(BuildError::NetworkError { status: Some(429) })));
    assert_eq!(fetch_after_response(2, Response::Status(429)), FetchAction::Request);
    assert_eq!(fetch_after_response(1, Response::Status(299)), FetchAction::Extract);
    assert_eq!(fetch_after_response(1, Response::Status(300)), FetchAction::Request);
}
