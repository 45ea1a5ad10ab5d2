//! The request pipeline: lookup, rate limit, authentication, delay, and the
//! blob operation that answers the request.
//!
//! `process_request` decides what a request gets. Where that is a blob
//! operation, the serving layer waits `Plan::delay`, performs the operation,
//! and turns its outcome into a response with `respond_read`, `respond_write`
//! or `respond_remove`. A rejection becomes a response through
//! `handle_rejection`.

use vstd::prelude::*;
use vstd::slice::slice_to_vec;
use vstd::utf8::encode_utf8;
use crate::authentication::{
    after, auth_accepts, base64_decoded, claim_set, credentials, json_members, member_value,
    check_authentication, reserved_claim,
};
use crate::config::{Authentication, Claim, Config, Endpoint};
use crate::rate_limit::{check_rate_limit, rate_step, window_of, LimitKey, RateLimitTracker, Window};
use crate::text::{has_prefix, str_eq};

verus! {

/// Why a request was turned away.
#[derive(PartialEq, Eq, Debug, Clone, Copy)]
pub enum Rejection {
    Unauthorized,
    RateLimited,
    NotFound,
    MethodNotAllowed,
    StorageFailure,
}

/// The operation on an endpoint's blob that answers a request.
#[derive(PartialEq, Eq, Debug, Clone, Copy)]
pub enum Operation {
    /// Read the blob and send it back.
    Read,
    /// Store the request body as the blob, replacing what was there.
    Write,
    /// Delete the blob.
    Remove,
}

/// A blob operation, with the status to answer with when it succeeds.
#[derive(PartialEq, Eq, Debug)]
pub struct BlobTask {
    pub operation: Operation,
    pub file: String,
    pub status: u16,
}

/// What follows the delay.
#[derive(PartialEq, Eq, Debug)]
pub enum Action {
    Perform(BlobTask),
    Reject(Rejection),
}

/// A request that passed every policy: wait `delay` milliseconds (if any),
/// then carry out `action`.
#[derive(PartialEq, Eq, Debug)]
pub struct Plan {
    pub delay: Option<u64>,
    pub action: Action,
}

/// A response: status, `Content-Type` header (if any), and body.
#[derive(PartialEq, Eq, Debug)]
pub struct Response {
    pub status: u16,
    pub content_type: Option<String>,
    pub body: Vec<u8>,
}

/// A response as (status, content type, body).
pub type ResponseView = (u16, Option<Seq<char>>, Seq<u8>);

impl View for Response {
    type V = ResponseView;

    open spec fn view(&self) -> ResponseView {
        (
            self.status,
            match self.content_type {
                Some(c) => Some(c@),
                None => None,
            },
            self.body@,
        )
    }
}

/// A plain-text response.
pub open spec fn text_reply(status: u16, body: Seq<char>) -> ResponseView {
    (status, None, encode_utf8(body))
}

/// The response that a rejection turns into.
pub open spec fn rejection_reply(r: Rejection) -> ResponseView {
    match r {
        Rejection::Unauthorized => text_reply(401, "Unauthorized\n"@),
        Rejection::RateLimited => text_reply(429, "Rate limit exceeded\n"@),
        Rejection::NotFound => text_reply(404, "Not Found\n"@),
        Rejection::MethodNotAllowed => text_reply(405, "Method not allowed\n"@),
        Rejection::StorageFailure => text_reply(500, "Internal Server Error\n"@),
    }
}

/// The answer to a read: the blob as JSON, or 404 where it is missing.
pub open spec fn read_reply(status: u16, contents: Option<Seq<u8>>) -> ResponseView {
    match contents {
        Some(b) => (status, Some("application/json"@), b),
        None => rejection_reply(Rejection::NotFound),
    }
}

/// The answer to a write: `Created`, or 500 where storing failed.
pub open spec fn write_reply(status: u16, written: bool) -> ResponseView {
    if written {
        text_reply(status, "Created\n"@)
    } else {
        rejection_reply(Rejection::StorageFailure)
    }
}

/// The answer to a delete: an empty body, or 404 where the blob was missing.
pub open spec fn remove_reply(status: u16, removed: bool) -> ResponseView {
    if removed {
        text_reply(status, ""@)
    } else {
        text_reply(404, "File not Found\n"@)
    }
}

/// The success status of a method when the endpoint sets none.
pub open spec fn default_status(method: Seq<char>) -> u16 {
    if method == "GET"@ {
        200
    } else if method == "POST"@ || method == "PUT"@ {
        201
    } else if method == "DELETE"@ {
        204
    } else {
        405
    }
}

/// The status a successful request to `e` with `method` answers with.
pub open spec fn effective_status(e: Endpoint, method: Seq<char>) -> u16 {
    match e.status_code {
        Some(s) => s,
        None => default_status(method),
    }
}

/// The blob operation that a method stands for, if any.
pub open spec fn operation_of(method: Seq<char>) -> Option<Operation> {
    if method == "GET"@ {
        Some(Operation::Read)
    } else if method == "POST"@ || method == "PUT"@ {
        Some(Operation::Write)
    } else if method == "DELETE"@ {
        Some(Operation::Remove)
    } else {
        None
    }
}

/// Whether `e` serves `method`.
pub open spec fn allows(e: Endpoint, method: Seq<char>) -> bool {
    exists|i: int| 0 <= i < e.method@.len() && #[trigger] e.method@[i]@ == method
}

/// What a request to `e` with `method` does once it has waited.
pub open spec fn action_for(e: Endpoint, method: Seq<char>) -> Action {
    if allows(e, method) {
        match operation_of(method) {
            Some(op) => Action::Perform(
                BlobTask { operation: op, file: e.file, status: effective_status(e, method) },
            ),
            None => Action::Reject(Rejection::MethodNotAllowed),
        }
    } else {
        Action::Reject(Rejection::MethodNotAllowed)
    }
}

/// The plan for a request to `e` with `method` that passed every policy.
pub open spec fn plan_for(e: Endpoint, method: Seq<char>) -> Plan {
    Plan { delay: e.delay, action: action_for(e, method) }
}

/// The decision for a request to `e`, from authentication on.
pub open spec fn decide(e: Endpoint, method: Seq<char>, header: Option<String>) -> Result<Plan, Rejection> {
    match e.authentication {
        Some(a) => if auth_accepts(a, header) {
            Ok(plan_for(e, method))
        } else {
            Err(Rejection::Unauthorized)
        },
        None => Ok(plan_for(e, method)),
    }
}

/// The decision for a request, from lookup on, rate limit aside.
pub open spec fn handled(
    endpoints: Map<Seq<char>, Endpoint>,
    path: Seq<char>,
    method: Seq<char>,
    header: Option<String>,
) -> Result<Plan, Rejection> {
    if endpoints.contains_key(path) {
        decide(endpoints[path], method, header)
    } else {
        Err(Rejection::NotFound)
    }
}

/// The rate-limit windows after a request to `e` at `now`, and whether the
/// request is admitted. Without a limit nothing is counted.
pub open spec fn limited(
    windows: Map<LimitKey, Window>,
    e: Endpoint,
    path: Seq<char>,
    method: Seq<char>,
    now: u64,
) -> (Map<LimitKey, Window>, bool) {
    match e.rate_limit {
        None => (windows, true),
        Some(l) => {
            let (w, ok) = rate_step(window_of(windows, (path, method)), l, now);
            (windows.insert((path, method), w), ok)
        },
    }
}

/// The decision for a request, and the rate-limit windows after it.
pub open spec fn processed(
    endpoints: Map<Seq<char>, Endpoint>,
    windows: Map<LimitKey, Window>,
    path: Seq<char>,
    method: Seq<char>,
    header: Option<String>,
    now: u64,
) -> (Result<Plan, Rejection>, Map<LimitKey, Window>) {
    if endpoints.contains_key(path) {
        let (w, ok) = limited(windows, endpoints[path], path, method, now);
        if ok {
            (decide(endpoints[path], method, header), w)
        } else {
            (Err(Rejection::RateLimited), w)
        }
    } else {
        (Err(Rejection::NotFound), windows)
    }
}

/// A path that is not configured is not found, whatever the method,
/// credentials or time, and no rate-limit window is touched.
pub proof fn lemma_unknown_path_not_found(
    endpoints: Map<Seq<char>, Endpoint>,
    windows: Map<LimitKey, Window>,
    path: Seq<char>,
    method: Seq<char>,
    header: Option<String>,
    now: u64,
)
    requires
        !endpoints.contains_key(path),
    ensures
        processed(endpoints, windows, path, method, header, now) == (
            Err::<Plan, Rejection>(Rejection::NotFound),
            windows,
        ),
        rejection_reply(Rejection::NotFound).0 == 404,
{
}

/// An endpoint without authentication lets every request through to its
/// plan, with or without an `Authorization` header.
pub proof fn lemma_open_endpoint(e: Endpoint, method: Seq<char>, header: Option<String>)
    requires
        e.authentication is None,
    ensures
        decide(e, method, header) == Ok::<Plan, Rejection>(plan_for(e, method)),
{
}

/// Basic authentication lets a request through exactly when its header is
/// `Basic ` followed by base64 text that decodes to `user:password`. A missing
/// header, another prefix, malformed base64 or other credentials are
/// unauthorized.
pub proof fn lemma_basic_auth(
    e: Endpoint,
    user: String,
    password: String,
    method: Seq<char>,
    header: Option<String>,
)
    requires
        e.authentication == Some(Authentication::Basic { user, password }),
    ensures
        decide(e, method, header) == if header matches Some(h) && ({
            let b = encode_utf8(h@);
            let prefix = encode_utf8("Basic "@);
            has_prefix(b, prefix) && base64_decoded(after(b, prefix)) == Some(
                credentials(user@, password@),
            )
        }) {
            Ok::<Plan, Rejection>(plan_for(e, method))
        } else {
            Err(Rejection::Unauthorized)
        },
{
}

/// Bearer authentication refuses a token that differs from the configured
/// one, and refuses the configured token too where, read as a JSON object, it
/// lacks a required claim (other than the reserved `token`) or holds it with
/// another value.
pub proof fn lemma_bearer_auth(
    e: Endpoint,
    token: String,
    claims: Vec<Claim>,
    method: Seq<char>,
    h: String,
)
    requires
        e.authentication == Some(Authentication::Bearer { token, claims }),
    ensures
        after(encode_utf8(h@), encode_utf8("Bearer "@)) != encode_utf8(token@) ==> decide(
            e,
            method,
            Some(h),
        ) == Err::<Plan, Rejection>(Rejection::Unauthorized),
        (exists|i: int|
            0 <= i < claims@.len() && claims@[i].name@ != reserved_claim() && member_value(
                claim_set(json_members(encode_utf8(token@))),
                #[trigger] claims@[i].name@,
            ) != Some(claims@[i].value@)) ==> decide(e, method, Some(h)) == Err::<
            Plan,
            Rejection,
        >(Rejection::Unauthorized),
{
}

/// Without a configured status, GET answers 200, POST and PUT 201 and DELETE
/// 204; a configured status replaces these for every served method; a method
/// the endpoint does not serve, or that is none of these four, is not allowed
/// (405) whatever status is configured.
pub proof fn lemma_status_resolution(e: Endpoint, method: Seq<char>)
    ensures
        default_status("GET"@) == 200,
        default_status("POST"@) == 201,
        default_status("PUT"@) == 201,
        default_status("DELETE"@) == 204,
        e.status_code matches Some(s) ==> effective_status(e, method) == s,
        e.status_code is None ==> effective_status(e, method) == default_status(method),
        allows(e, method) && operation_of(method) is Some ==> (action_for(e, method) matches Action::Perform(t)
            && t.status == effective_status(e, method)),
        !allows(e, method) || operation_of(method) is None ==> action_for(e, method)
            == Action::Reject(Rejection::MethodNotAllowed),
        rejection_reply(Rejection::MethodNotAllowed).0 == 405,
{
    reveal_strlit("GET");
    reveal_strlit("POST");
    reveal_strlit("PUT");
    reveal_strlit("DELETE");
    assert("POST"@.len() != "GET"@.len());
    assert("PUT"@[0] != "GET"@[0]);
    assert("DELETE"@.len() != "GET"@.len());
    assert("DELETE"@.len() != "POST"@.len());
    assert("DELETE"@.len() != "PUT"@.len());
}

/// A read of a missing blob and a delete of a missing blob answer 404, and a
/// failed write answers 500, whatever status the endpoint configures.
pub proof fn lemma_storage_outcomes(status: u16)
    ensures
        read_reply(status, None).0 == 404,
        remove_reply(status, false).0 == 404,
        write_reply(status, false).0 == 500,
{
}

/// Repeating a request to an endpoint without a rate limit gets the same
/// decision, whatever the windows and times, so a repeated read of an
/// unchanged blob gets the same response; a delete of a missing blob answers
/// the same 404 each time.
pub proof fn lemma_repeat_is_stable(
    endpoints: Map<Seq<char>, Endpoint>,
    windows1: Map<LimitKey, Window>,
    windows2: Map<LimitKey, Window>,
    path: Seq<char>,
    method: Seq<char>,
    header: Option<String>,
    now1: u64,
    now2: u64,
    status: u16,
)
    requires
        endpoints.contains_key(path) ==> endpoints[path].rate_limit is None,
    ensures
        processed(endpoints, windows1, path, method, header, now1).0 == processed(
            endpoints,
            windows2,
            path,
            method,
            header,
            now2,
        ).0,
        remove_reply(status, false) == text_reply(404, "File not Found\n"@),
{
}

/// Counting a request to one (path, method) leaves the window of every other
/// (path, method) as it was.
pub proof fn lemma_counters_independent(
    endpoints: Map<Seq<char>, Endpoint>,
    windows: Map<LimitKey, Window>,
    path: Seq<char>,
    method: Seq<char>,
    header: Option<String>,
    now: u64,
    other: LimitKey,
)
    requires
        other != (path, method),
    ensures
        window_of(processed(endpoints, windows, path, method, header, now).1, other) == window_of(
            windows,
            other,
        ),
{
}

fn text_response(status: u16, body: &str) -> (r: Response)
    ensures
        r@ == text_reply(status, body@),
{
    Response { status, content_type: None, body: slice_to_vec(body.as_bytes()) }
}

/// The response for a rejection.
pub fn handle_rejection(err: Rejection) -> (r: Response)
    ensures
        r@ == rejection_reply(err),
{
    match err {
        Rejection::Unauthorized => text_response(401, "Unauthorized\n"),
        Rejection::RateLimited => text_response(429, "Rate limit exceeded\n"),
        Rejection::NotFound => text_response(404, "Not Found\n"),
        Rejection::MethodNotAllowed => text_response(405, "Method not allowed\n"),
        Rejection::StorageFailure => text_response(500, "Internal Server Error\n"),
    }
}

/// The response to a read that found `contents`, or found nothing.
pub fn respond_read(status: u16, contents: Option<Vec<u8>>) -> (r: Response)
    ensures
        r@ == read_reply(
            status,
            match contents {
                Some(b) => Some(b@),
                None => None,
            },
        ),
{
    match contents {
        Some(body) => Response { status, content_type: Some("application/json".to_owned()), body },
        None => handle_rejection(Rejection::NotFound),
    }
}

/// The response to a write that succeeded or failed.
pub fn respond_write(status: u16, written: bool) -> (r: Response)
    ensures
        r@ == write_reply(status, written),
{
    if written {
        text_response(status, "Created\n")
    } else {
        handle_rejection(Rejection::StorageFailure)
    }
}

/// The response to a delete that removed the blob, or found none.
pub fn respond_remove(status: u16, removed: bool) -> (r: Response)
    ensures
        r@ == remove_reply(status, removed),
{
    if removed {
        text_response(status, "")
    } else {
        text_response(404, "File not Found\n")
    }
}

/// The blob operation that `method` stands for, if any.
fn operation(method: &String) -> (r: Option<Operation>)
    ensures
        r == operation_of(method@),
{
    let m = method.as_str();
    if str_eq(m, "GET") {
        Some(Operation::Read)
    } else if str_eq(m, "POST") || str_eq(m, "PUT") {
        Some(Operation::Write)
    } else if str_eq(m, "DELETE") {
        Some(Operation::Remove)
    } else {
        None
    }
}

/// The success status for `method` on `endpoint`: the configured one, else
/// 200 for GET, 201 for POST and PUT, 204 for DELETE and 405 otherwise.
pub fn default_status_code(endpoint: &Endpoint, method: &String) -> (r: u16)
    ensures
        r == effective_status(*endpoint, method@),
{
    match endpoint.status_code {
        Some(s) => s,
        None => {
            let m = method.as_str();
            if str_eq(m, "GET") {
                200
            } else if str_eq(m, "POST") || str_eq(m, "PUT") {
                201
            } else if str_eq(m, "DELETE") {
                204
            } else {
                405
            }
        },
    }
}

/// Whether `endpoint` serves `method`.
fn method_allowed(endpoint: &Endpoint, method: &String) -> (r: bool)
    ensures
        r == allows(*endpoint, method@),
{
    let n = endpoint.method.len();
    let mut i: usize = 0;
    while i < n
        invariant
            n == endpoint.method@.len(),
            i <= n,
            forall|j: int| 0 <= j < i ==> #[trigger] endpoint.method@[j]@ != method@,
        decreases n - i,
    {
        if endpoint.method[i] == *method {
            return true;
        }
        i = i + 1;
    }
    false
}

/// The plan for a request to `endpoint` with `method` that passed every policy.
fn plan(endpoint: &Endpoint, method: &String) -> (r: Plan)
    ensures
        r == plan_for(*endpoint, method@),
{
    let status = default_status_code(endpoint, method);
    let action = if method_allowed(endpoint, method) {
        match operation(method) {
            Some(op) => Action::Perform(BlobTask { operation: op, file: endpoint.file.clone(), status }),
            None => Action::Reject(Rejection::MethodNotAllowed),
        }
    } else {
        Action::Reject(Rejection::MethodNotAllowed)
    };
    Plan { delay: endpoint.delay, action }
}

/// Decides a request from lookup on, rate limit aside: unknown paths are not
/// found, failed credentials are unauthorized, and anything else gets the
/// endpoint's plan.
pub fn handle_request(config: &Config, path: &String, method: &String, auth_header: Option<String>) -> (r: Result<Plan, Rejection>)
    ensures
        r == handled(config@, path@, method@, auth_header),
{
    match config.get(path) {
        None => Err(Rejection::NotFound),
        Some(endpoint) => {
            match check_authentication(&endpoint.authentication, auth_header) {
                Ok(()) => Ok(plan(endpoint, method)),
                Err(_) => Err(Rejection::Unauthorized),
            }
        },
    }
}

/// Decides a request made at `now_ms`: unknown paths are not found before any
/// policy; then the endpoint's rate limit counts the request and may refuse
/// it; then its credentials are checked.
pub fn process_request(
    config: &Config,
    tracker: &mut RateLimitTracker,
    path: &String,
    method: &String,
    auth_header: Option<String>,
    now_ms: u64,
) -> (r: Result<Plan, Rejection>)
    ensures
        (r, final(tracker)@) == processed(config@, old(tracker)@, path@, method@, auth_header, now_ms),
{
    match config.get(path) {
        None => Err(Rejection::NotFound),
        Some(endpoint) => {
            match check_rate_limit(path, method, endpoint.rate_limit.as_ref(), tracker, now_ms) {
                Err(_) => Err(Rejection::RateLimited),
                Ok(()) => handle_request(config, path, method, auth_header),
            }
        },
    }
}

} // verus!
