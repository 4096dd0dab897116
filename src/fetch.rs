//! The decisions of a download with bounded retry: when to skip the request, when
//! to retry, when to unpack and what to report. The caller performs the requests
//! and the unpacking and hands each outcome back.
use vstd::prelude::*;

use crate::BuildError;

verus! {

/// How many requests one fetch may make.
pub const MAX_ATTEMPTS: u32 = 3;

/// The outcome of one request.
#[derive(Debug, Clone, Copy, PartialEq, Eq, Structural)]
pub enum Response {
    /// The server answered with this status.
    Status(u16),
    /// No answer came (connection or protocol failure).
    Unreachable,
}

/// What the caller does next.
#[derive(Debug, Clone, Copy, PartialEq, Eq)]
pub enum FetchAction {
    /// Issue one request.
    Request,
    /// Decompress and unpack the body just received into the destination.
    Extract,
    /// Stop, with this result.
    Finish(Result<(), BuildError>),
}

pub open spec fn is_success(status: u16) -> bool {
    200 <= status <= 299
}

/// The first decision: a fetch that may rely on an existing destination finishes
/// at once when it exists.
pub open spec fn start_action(idempotent: bool, dest_exists: bool) -> FetchAction {
    if idempotent && dest_exists {
        FetchAction::Finish(Ok(()))
    } else {
        FetchAction::Request
    }
}

/// The decision after the response to request number `attempt`.
pub open spec fn response_action(attempt: u32, response: Response) -> FetchAction {
    match response {
        Response::Status(s) => if is_success(s) {
            FetchAction::Extract
        } else if s == 404 {
            FetchAction::Finish(Err(BuildError::NotFound))
        } else if attempt < MAX_ATTEMPTS {
            FetchAction::Request
        } else {
            FetchAction::Finish(Err(BuildError::NetworkError { status: Some(s) }))
        },
        Response::Unreachable => if attempt < MAX_ATTEMPTS {
            FetchAction::Request
        } else {
            FetchAction::Finish(Err(BuildError::NetworkError { status: None }))
        },
    }
}

/// The decision after unpacking: a failure is final and never retried.
pub open spec fn extract_action(ok: bool) -> FetchAction {
    if ok {
        FetchAction::Finish(Ok(()))
    } else {
        FetchAction::Finish(Err(BuildError::ExtractionError))
    }
}

/// Decides whether a fetch makes any request.
pub fn fetch_start(idempotent: bool, dest_exists: bool) -> (r: FetchAction)
    ensures
        r == start_action(idempotent, dest_exists),
{
    if idempotent && dest_exists {
        FetchAction::Finish(Ok(()))
    } else {
        FetchAction::Request
    }
}

/// Decides what follows the response to request number `attempt` (counting from
/// one): unpack on success, stop on 404, retry anything else while attempts
/// remain, else report the last failure.
pub fn fetch_after_response(attempt: u32, response: Response) -> (r: FetchAction)
    requires
        1 <= attempt <= MAX_ATTEMPTS,
    ensures
        r == response_action(attempt, response),
{
    match response {
        Response::Status(s) => if 200 <= s && s <= 299 {
            FetchAction::Extract
        } else if s == 404 {
            FetchAction::Finish(Err(BuildError::NotFound))
        } else if attempt < MAX_ATTEMPTS {
            FetchAction::Request
        } else {
            FetchAction::Finish(Err(BuildError::NetworkError { status: Some(s) }))
        },
        Response::Unreachable => if attempt < MAX_ATTEMPTS {
            FetchAction::Request
        } else {
            FetchAction::Finish(Err(BuildError::NetworkError { status: None }))
        },
    }
}

/// Decides how a fetch ends once the body was unpacked, or failed to be.
pub fn fetch_after_extract(ok: bool) -> (r: FetchAction)
    ensures
        r == extract_action(ok),
{
    if ok {
        FetchAction::Finish(Ok(()))
    } else {
        FetchAction::Finish(Err(BuildError::ExtractionError))
    }
}

/// The response to request number `i + 1` when the server gives `rs` in turn;
/// past the end of `rs` no answer comes.
pub open spec fn response_at(rs: Seq<Response>, i: int) -> Response {
    if 0 <= i < rs.len() {
        rs[i]
    } else {
        Response::Unreachable
    }
}

/// A whole fetch driven by the decisions above, from the point where request
/// number `made + 1` is issued: how many requests are made in all, and the result.
pub open spec fn run_requests(made: nat, rs: Seq<Response>, extract_ok: bool) -> (
    nat,
    Result<(), BuildError>,
)
    decreases MAX_ATTEMPTS - made,
{
    let attempt = made + 1;
    if attempt > MAX_ATTEMPTS {
        (made, Err(BuildError::NetworkError { status: None }))
    } else {
        match response_action(attempt as u32, response_at(rs, made as int)) {
            FetchAction::Request => run_requests(attempt, rs, extract_ok),
            FetchAction::Extract => (
                attempt,
                if extract_ok {
                    Ok(())
                } else {
                    Err(BuildError::ExtractionError)
                },
            ),
            FetchAction::Finish(r) => (attempt, r),
        }
    }
}

/// A whole fetch: the number of requests it makes and its result, when the
/// server answers the requests with `rs` in turn and unpacking succeeds exactly
/// when `extract_ok`.
pub open spec fn run_fetch(
    idempotent: bool,
    dest_exists: bool,
    rs: Seq<Response>,
    extract_ok: bool,
) -> (nat, Result<(), BuildError>) {
    match start_action(idempotent, dest_exists) {
        FetchAction::Finish(r) => (0, r),
        _ => run_requests(0, rs, extract_ok),
    }
}

/// A fetch that may rely on an existing destination makes no request when the
/// destination exists, whatever the server would answer; so a second such fetch
/// after a first one that populated the destination makes none.
pub proof fn lemma_idempotent_fetch_makes_no_request(
    rs1: Seq<Response>,
    rs2: Seq<Response>,
    extract_ok: bool,
)
    ensures
        run_fetch(true, true, rs1, extract_ok) == (0nat, Ok::<(), BuildError>(())),
        run_fetch(true, true, rs1, extract_ok) == run_fetch(true, true, rs2, extract_ok),
{
}

/// A 404 answer to the first request ends the fetch after that one request with
/// `NotFound`.
pub proof fn lemma_not_found_is_terminal(
    idempotent: bool,
    dest_exists: bool,
    rs: Seq<Response>,
    extract_ok: bool,
)
    requires
        !(idempotent && dest_exists),
        rs.len() > 0,
        rs[0] == Response::Status(404),
    ensures
        run_fetch(idempotent, dest_exists, rs, extract_ok) == (1nat, Err::<(), BuildError>(
            BuildError::NotFound,
        )),
{
}

/// When every answer is a failure other than 404, the fetch makes exactly
/// `MAX_ATTEMPTS` requests and reports the last failure.
pub proof fn lemma_transient_failures_retry(
    idempotent: bool,
    dest_exists: bool,
    rs: Seq<Response>,
    extract_ok: bool,
)
    requires
        !(idempotent && dest_exists),
        forall|i: int|
            0 <= i < rs.len() ==> match #[trigger] rs[i] {
                Response::Status(s) => !is_success(s) && s != 404,
                Response::Unreachable => true,
            },
    ensures
        run_fetch(idempotent, dest_exists, rs, extract_ok).0 == MAX_ATTEMPTS,
        run_fetch(idempotent, dest_exists, rs, extract_ok).1 == Err::<(), BuildError>(
            match response_at(rs, 2) {
                Response::Status(s) => BuildError::NetworkError { status: Some(s) },
                Response::Unreachable => BuildError::NetworkError { status: None },
            },
        ),
{
    let r0 = response_at(rs, 0);
    let r1 = response_at(rs, 1);
    let r2 = response_at(rs, 2);
    if 0 < rs.len() {
        assert(r0 == rs[0]);
    }
    if 1 < rs.len() {
        assert(r1 == rs[1]);
    }
    if 2 < rs.len() {
        assert(r2 == rs[2]);
    }
    assert(response_action(1, r0) == FetchAction::Request);
    assert(response_action(2, r1) == FetchAction::Request);
    assert(run_requests(0, rs, extract_ok) == run_requests(1, rs, extract_ok));
    assert(run_requests(1, rs, extract_ok) == run_requests(2, rs, extract_ok));
}

/// No fetch makes more than `MAX_ATTEMPTS` requests.
pub proof fn lemma_fetch_bounded(
    idempotent: bool,
    dest_exists: bool,
    rs: Seq<Response>,
    extract_ok: bool,
)
    ensures
        run_fetch(idempotent, dest_exists, rs, extract_ok).0 <= MAX_ATTEMPTS,
{
    assert(run_requests(2, rs, extract_ok).0 <= 3);
    assert(run_requests(1, rs, extract_ok).0 <= 3);
    assert(run_requests(0, rs, extract_ok).0 <= 3);
}

} // verus!
