//! Engine errors, client-facing API errors, and the mapping between them.
//!
//! The mapping keeps internal details (upstream bodies, backend ids,
//! per-attempt errors, engine strings) out of what a client sees: the
//! client gets a stable message and a stable `code` it can branch on.

use vstd::prelude::*;
use crate::text::{decimal, join, push_decimal, push_joined, push_str, str_eq, strings_view, to_string};

verus! {

#[derive(Debug)]
pub enum EngineError {
    ModelNotFound(String),
    ModelLoadFailed(String),
    InferenceFailed(String),
    ContextLengthExceeded { requested: usize, max: usize },
    Timeout,
    Network(String),
    UpstreamServerError { status: u16, body: String },
    /// `retry_after_secs`: the delay the upstream asked for, in whole seconds.
    RateLimited { retry_after_secs: Option<u64> },
    AllBackendsFailed { route_id: String, attempts: Vec<(String, Box<EngineError>)> },
    BackendPoisoned,
    BackendDraining,
    ModelUnavailable(String),
    /// An in-flight request prevents unloading the model.
    BackendBusy,
    NotImplemented(String),
}

/// The human-readable message of an engine error.
pub open spec fn engine_message(e: EngineError) -> Seq<char> {
    match e {
        EngineError::ModelNotFound(s) => "model not found: "@ + s@,
        EngineError::ModelLoadFailed(s) => "failed to load model: "@ + s@,
        EngineError::InferenceFailed(s) => "inference failed: "@ + s@,
        EngineError::ContextLengthExceeded { requested, max } =>
            "context length exceeded: requested "@ + decimal(requested as nat) + ", max "@ + decimal(max as nat),
        EngineError::Timeout => "request timed out"@,
        EngineError::Network(s) => "network error: "@ + s@,
        EngineError::UpstreamServerError { status, body } =>
            "upstream server error ("@ + decimal(status as nat) + "): "@ + body@,
        EngineError::RateLimited { retry_after_secs } => match retry_after_secs {
            Some(d) => "rate limited"@ + " (retry after "@ + decimal(d as nat) + "s)"@,
            None => "rate limited"@,
        },
        EngineError::AllBackendsFailed { route_id, attempts } =>
            "all backends failed for route '"@ + route_id@ + "' ("@ + decimal(attempts@.len()) + " attempts)"@,
        EngineError::BackendPoisoned => "backend poisoned by worker panic"@,
        EngineError::BackendDraining => "backend draining (server shutting down)"@,
        EngineError::ModelUnavailable(s) => "model unavailable: "@ + s@,
        EngineError::BackendBusy => "backend busy: in-flight requests prevent unload"@,
        EngineError::NotImplemented(s) => "not implemented: "@ + s@,
    }
}

fn prefixed(prefix: &str, s: &String) -> (r: String)
    ensures
        r@ == prefix@ + s@,
{
    let mut r = to_string(prefix);
    push_str(&mut r, s.as_str());
    r
}

impl EngineError {
    /// The error's message, as it is displayed.
    pub fn message(&self) -> (r: String)
        ensures
            r@ == engine_message(*self),
    {
        let r = match self {
            EngineError::ModelNotFound(s) => prefixed("model not found: ", s),
            EngineError::ModelLoadFailed(s) => prefixed("failed to load model: ", s),
            EngineError::InferenceFailed(s) => prefixed("inference failed: ", s),
            EngineError::ContextLengthExceeded { requested, max } => {
                let mut r = to_string("context length exceeded: requested ");
                push_decimal(&mut r, *requested as u64);
                push_str(&mut r, ", max ");
                push_decimal(&mut r, *max as u64);
                r
            },
            EngineError::Timeout => to_string("request timed out"),
            EngineError::Network(s) => prefixed("network error: ", s),
            EngineError::UpstreamServerError { status, body } => {
                let mut r = to_string("upstream server error (");
                push_decimal(&mut r, *status as u64);
                push_str(&mut r, "): ");
                push_str(&mut r, body.as_str());
                r
            },
            EngineError::RateLimited { retry_after_secs } => {
                let mut r = to_string("rate limited");
                if let Some(d) = retry_after_secs {
                    push_str(&mut r, " (retry after ");
                    push_decimal(&mut r, *d);
                    push_str(&mut r, "s)");
                }
                r
            },
            EngineError::AllBackendsFailed { route_id, attempts } => {
                let mut r = to_string("all backends failed for route '");
                push_str(&mut r, route_id.as_str());
                push_str(&mut r, "' (");
                push_decimal(&mut r, attempts.len() as u64);
                push_str(&mut r, " attempts)");
                r
            },
            EngineError::BackendPoisoned => to_string("backend poisoned by worker panic"),
            EngineError::BackendDraining => to_string("backend draining (server shutting down)"),
            EngineError::ModelUnavailable(s) => prefixed("model unavailable: ", s),
            EngineError::BackendBusy => to_string("backend busy: in-flight requests prevent unload"),
            EngineError::NotImplemented(s) => prefixed("not implemented: ", s),
        };
        r
    }
}

/// Whether a failed attempt may be retried on another backend: timeouts,
/// network errors, upstream 5xx and rate limiting. A poisoned or draining
/// backend, or a model without capacity, is not retried.
pub open spec fn retryable(e: EngineError) -> bool {
    ||| e is Timeout
    ||| e is Network
    ||| e is UpstreamServerError
    ||| e is RateLimited
}

pub fn is_retryable(err: &EngineError) -> (r: bool)
    ensures
        r == retryable(*err),
{
    match err {
        EngineError::Timeout => true,
        EngineError::Network(_) => true,
        EngineError::UpstreamServerError { .. } => true,
        EngineError::RateLimited { .. } => true,
        _ => false,
    }
}

#[derive(Debug)]
pub enum ApiError {
    BadRequest(String),
    ModelNotFound { requested: String, available: Vec<String> },
    Internal(String),
    BadGateway(String),
    ServiceUnavailable(String),
}

/// An `ApiError` by the characters of its strings.
pub enum ApiErrorView {
    BadRequest(Seq<char>),
    ModelNotFound { requested: Seq<char>, available: Seq<Seq<char>> },
    Internal(Seq<char>),
    BadGateway(Seq<char>),
    ServiceUnavailable(Seq<char>),
}

impl View for ApiError {
    type V = ApiErrorView;

    open spec fn view(&self) -> ApiErrorView {
        match self {
            ApiError::BadRequest(s) => ApiErrorView::BadRequest(s@),
            ApiError::ModelNotFound { requested, available } =>
                ApiErrorView::ModelNotFound { requested: requested@, available: strings_view(available@) },
            ApiError::Internal(s) => ApiErrorView::Internal(s@),
            ApiError::BadGateway(s) => ApiErrorView::BadGateway(s@),
            ApiError::ServiceUnavailable(s) => ApiErrorView::ServiceUnavailable(s@),
        }
    }
}

/// The message of a `ModelNotFound` error.
pub open spec fn model_not_found_message(requested: Seq<char>, available: Seq<Seq<char>>) -> Seq<char> {
    if available.len() == 0 {
        "model '"@ + requested + "' not found; no models loaded"@
    } else {
        "model '"@ + requested + "' not found. available models: "@ + join(available, ", "@)
    }
}

pub fn format_model_not_found(requested: &str, available: &Vec<String>) -> (r: String)
    ensures
        r@ == model_not_found_message(requested@, strings_view(available@)),
{
    let mut r = to_string("model '");
    push_str(&mut r, requested);
    if available.len() == 0 {
        push_str(&mut r, "' not found; no models loaded");
    } else {
        push_str(&mut r, "' not found. available models: ");
        push_joined(&mut r, available, ", ");
    }
    r
}

/// The message a client sees for an API error.
pub open spec fn api_message(a: ApiErrorView) -> Seq<char> {
    match a {
        ApiErrorView::BadRequest(s) => "invalid request: "@ + s,
        ApiErrorView::ModelNotFound { requested, available } => model_not_found_message(requested, available),
        ApiErrorView::Internal(s) => "internal error: "@ + s,
        ApiErrorView::BadGateway(s) => s,
        ApiErrorView::ServiceUnavailable(s) => "service unavailable: "@ + s,
    }
}

/// The HTTP status of an API error's response.
pub open spec fn api_status(a: ApiErrorView) -> u16 {
    match a {
        ApiErrorView::BadRequest(_) => 400,
        ApiErrorView::ModelNotFound { .. } => 404,
        ApiErrorView::Internal(_) => 500,
        ApiErrorView::BadGateway(_) => 502,
        ApiErrorView::ServiceUnavailable(_) => 503,
    }
}

/// The `type` field of an API error's body.
pub open spec fn api_error_type(a: ApiErrorView) -> Seq<char> {
    match a {
        ApiErrorView::BadRequest(_) => "invalid_request_error"@,
        ApiErrorView::ModelNotFound { .. } => "invalid_request_error"@,
        _ => "server_error"@,
    }
}

/// The `code` field of an API error's body.
pub open spec fn api_code(a: ApiErrorView) -> Seq<char> {
    match a {
        ApiErrorView::BadRequest(_) => "bad_request"@,
        ApiErrorView::ModelNotFound { .. } => "model_not_found"@,
        ApiErrorView::Internal(_) => "internal_error"@,
        ApiErrorView::BadGateway(_) => "upstream_error"@,
        ApiErrorView::ServiceUnavailable(_) => "service_unavailable"@,
    }
}

/// The message of the 503 answered when a model cannot be brought into
/// memory right now (the VRAM budget is spent and nothing can be evicted).
pub open spec fn model_unavailable_text() -> Seq<char> {
    "model temporarily unavailable"@
}

/// The `Retry-After` delay, in seconds, that an API error's response
/// carries: 5 on the 503 for a model that cannot be loaded right now, so
/// that clients retry; none otherwise.
pub open spec fn api_retry_after(a: ApiErrorView) -> Option<u64> {
    match a {
        ApiErrorView::ServiceUnavailable(s) => if s == model_unavailable_text() { Some(5u64) } else { None },
        _ => None,
    }
}

impl ApiError {
    /// The `Retry-After` delay in seconds for this error's response.
    pub fn retry_after_secs(&self) -> (r: Option<u64>)
        ensures
            r == api_retry_after(self@),
    {
        match self {
            ApiError::ServiceUnavailable(s) => {
                if str_eq(s.as_str(), "model temporarily unavailable") {
                    proof { reveal_strlit("model temporarily unavailable"); }
                    Some(5)
                } else {
                    proof { reveal_strlit("model temporarily unavailable"); }
                    None
                }
            },
            _ => None,
        }
    }

    /// The message a client sees.
    pub fn message(&self) -> (r: String)
        ensures
            r@ == api_message(self@),
    {
        match self {
            ApiError::BadRequest(s) => prefixed("invalid request: ", s),
            ApiError::ModelNotFound { requested, available } => format_model_not_found(requested.as_str(), available),
            ApiError::Internal(s) => prefixed("internal error: ", s),
            ApiError::BadGateway(s) => to_string(s.as_str()),
            ApiError::ServiceUnavailable(s) => prefixed("service unavailable: ", s),
        }
    }

    pub fn status_code(&self) -> (r: u16)
        ensures
            r == api_status(self@),
    {
        match self {
            ApiError::BadRequest(_) => 400,
            ApiError::ModelNotFound { .. } => 404,
            ApiError::Internal(_) => 500,
            ApiError::BadGateway(_) => 502,
            ApiError::ServiceUnavailable(_) => 503,
        }
    }

    pub fn error_type(&self) -> (r: &'static str)
        ensures
            r@ == api_error_type(self@),
    {
        match self {
            ApiError::BadRequest(_) => "invalid_request_error",
            ApiError::ModelNotFound { .. } => "invalid_request_error",
            _ => "server_error",
        }
    }

    pub fn code(&self) -> (r: &'static str)
        ensures
            r@ == api_code(self@),
    {
        match self {
            ApiError::BadRequest(_) => "bad_request",
            ApiError::ModelNotFound { .. } => "model_not_found",
            ApiError::Internal(_) => "internal_error",
            ApiError::BadGateway(_) => "upstream_error",
            ApiError::ServiceUnavailable(_) => "service_unavailable",
        }
    }

    /// Map an engine error to what the client sees.
    pub fn from_engine(err: EngineError) -> (r: ApiError)
        ensures
            r@ == api_from_engine(err),
    {
        match err {
            EngineError::ModelNotFound(id) => {
                let available: Vec<String> = Vec::new();
                assert(strings_view(available@) =~= Seq::<Seq<char>>::empty());
                ApiError::ModelNotFound { requested: id, available }
            },
            EngineError::ModelLoadFailed(_) => ApiError::Internal(to_string("internal server error")),
            EngineError::InferenceFailed(_) => ApiError::Internal(to_string("internal server error")),
            EngineError::ContextLengthExceeded { requested, max } => {
                let mut m = to_string("context length exceeded: requested ");
                push_decimal(&mut m, requested as u64);
                push_str(&mut m, ", max ");
                push_decimal(&mut m, max as u64);
                ApiError::BadRequest(m)
            },
            EngineError::Timeout => ApiError::BadGateway(to_string("upstream request timed out")),
            EngineError::Network(_) => ApiError::BadGateway(to_string("upstream unreachable")),
            EngineError::UpstreamServerError { status, .. } => {
                let mut m = to_string("upstream error ");
                push_decimal(&mut m, status as u64);
                ApiError::BadGateway(m)
            },
            EngineError::RateLimited { .. } => ApiError::BadGateway(to_string("upstream rate limited")),
            EngineError::AllBackendsFailed { route_id, .. } => {
                let mut m = to_string("all backends failed for route '");
                push_str(&mut m, route_id.as_str());
                push_str(&mut m, "'");
                ApiError::BadGateway(m)
            },
            EngineError::BackendPoisoned =>
                ApiError::ServiceUnavailable(to_string("model backend temporarily unavailable")),
            EngineError::BackendDraining => ApiError::ServiceUnavailable(to_string("server shutting down")),
            EngineError::ModelUnavailable(_) => ApiError::ServiceUnavailable(to_string("model temporarily unavailable")),
            EngineError::BackendBusy => ApiError::ServiceUnavailable(to_string("model temporarily unavailable")),
            EngineError::NotImplemented(_) => ApiError::Internal(to_string("internal server error")),
        }
    }
}

/// What a client sees of an engine error: the requested model for a
/// missing model, the limits for an over-long context, the status for an
/// upstream error and the route for a failed route; every other detail
/// is replaced by a fixed message.
pub open spec fn api_from_engine(e: EngineError) -> ApiErrorView {
    match e {
        EngineError::ModelNotFound(id) => ApiErrorView::ModelNotFound { requested: id@, available: Seq::empty() },
        EngineError::ModelLoadFailed(_) => ApiErrorView::Internal("internal server error"@),
        EngineError::InferenceFailed(_) => ApiErrorView::Internal("internal server error"@),
        EngineError::ContextLengthExceeded { requested, max } => ApiErrorView::BadRequest(
            "context length exceeded: requested "@ + decimal(requested as nat) + ", max "@ + decimal(max as nat),
        ),
        EngineError::Timeout => ApiErrorView::BadGateway("upstream request timed out"@),
        EngineError::Network(_) => ApiErrorView::BadGateway("upstream unreachable"@),
        EngineError::UpstreamServerError { status, .. } =>
            ApiErrorView::BadGateway("upstream error "@ + decimal(status as nat)),
        EngineError::RateLimited { .. } => ApiErrorView::BadGateway("upstream rate limited"@),
        EngineError::AllBackendsFailed { route_id, .. } =>
            ApiErrorView::BadGateway("all backends failed for route '"@ + route_id@ + "'"@),
        EngineError::BackendPoisoned => ApiErrorView::ServiceUnavailable("model backend temporarily unavailable"@),
        EngineError::BackendDraining => ApiErrorView::ServiceUnavailable("server shutting down"@),
        EngineError::ModelUnavailable(_) => ApiErrorView::ServiceUnavailable("model temporarily unavailable"@),
        EngineError::BackendBusy => ApiErrorView::ServiceUnavailable("model temporarily unavailable"@),
        EngineError::NotImplemented(_) => ApiErrorView::Internal("internal server error"@),
    }
}

impl From<EngineError> for ApiError {
    /// What the client sees of `err`; see `api_from_engine`.
    fn from(err: EngineError) -> (r: ApiError)
        ensures
            r@ == api_from_engine(err),
    {
        ApiError::from_engine(err)
    }
}

impl vstd::std_specs::convert::FromSpecImpl<EngineError> for ApiError {
    open spec fn obeys_from_spec() -> bool {
        false
    }

    open spec fn from_spec(v: EngineError) -> ApiError {
        arbitrary()
    }
}

// ---------------------------------------------------------------------
// Laws
// ---------------------------------------------------------------------

/// A model that cannot be made available answers 503 with `Retry-After: 5`;
/// every answer that is not a 503 carries no retry delay.
pub proof fn law_model_unavailable_retries_after_five(e: EngineError, a: ApiErrorView)
    ensures
        (e is ModelUnavailable || e is BackendBusy) ==> api_status(api_from_engine(e)) == 503
            && api_retry_after(api_from_engine(e)) == Some(5u64),
        api_status(a) != 503 ==> api_retry_after(a) is None,
{
}

/// What a client is answered for each kind of engine failure: a missing
/// model 404; an over-long context 400; a model that failed to load, a
/// failed inference or an unimplemented operation 500 `internal_error`
/// with a fixed message; an upstream failure 502 `upstream_error`; a model
/// that is poisoned, draining, unavailable or busy 503
/// `service_unavailable`.
pub proof fn law_api_answer_by_kind(e: EngineError)
    ensures
        e is ModelNotFound ==> api_status(api_from_engine(e)) == 404 && api_code(api_from_engine(e)) == "model_not_found"@,
        e is ContextLengthExceeded ==> api_status(api_from_engine(e)) == 400
            && api_code(api_from_engine(e)) == "bad_request"@,
        (e is ModelLoadFailed || e is InferenceFailed || e is NotImplemented) ==> api_status(api_from_engine(e)) == 500
            && api_code(api_from_engine(e)) == "internal_error"@
            && api_message(api_from_engine(e)) == "internal error: internal server error"@,
        (e is Timeout || e is Network || e is UpstreamServerError || e is RateLimited || e is AllBackendsFailed)
            ==> api_status(api_from_engine(e)) == 502 && api_code(api_from_engine(e)) == "upstream_error"@,
        (e is BackendPoisoned || e is BackendDraining || e is ModelUnavailable || e is BackendBusy)
            ==> api_status(api_from_engine(e)) == 503 && api_code(api_from_engine(e)) == "service_unavailable"@,
{
    reveal_strlit("internal error: ");
    reveal_strlit("internal server error");
    reveal_strlit("internal error: internal server error");
    assert("internal error: "@ + "internal server error"@ =~= "internal error: internal server error"@);
}

/// Every API error answers with one of five statuses.
pub proof fn law_api_status_codes(a: ApiErrorView)
    ensures
        api_status(a) == 400 || api_status(a) == 404 || api_status(a) == 500 || api_status(a) == 502
            || api_status(a) == 503,
{
}

/// The errors worth retrying on another backend are exactly the upstream
/// failures a client sees as 502 Bad Gateway, a failed route aside.
pub proof fn law_retryable_is_bad_gateway(e: EngineError)
    requires
        !(e is AllBackendsFailed),
    ensures
        retryable(e) <==> api_status(api_from_engine(e)) == 502,
{
}

/// What a client sees of an engine error does not depend on the error's
/// internal details: errors of the same kind that differ only in their
/// message, upstream body or attempts look the same.
pub proof fn law_details_hidden(a: EngineError, b: EngineError)
    requires
        (a is ModelLoadFailed && b is ModelLoadFailed) || (a is InferenceFailed && b is InferenceFailed)
            || (a is Network && b is Network) || (a is ModelUnavailable && b is ModelUnavailable)
            || (a is NotImplemented && b is NotImplemented)
            || (a matches EngineError::UpstreamServerError { status: s1, .. } && b matches EngineError::UpstreamServerError {
            status: s2,
            ..
        } && s1 == s2) || (a matches EngineError::AllBackendsFailed { route_id: r1, .. }
            && b matches EngineError::AllBackendsFailed { route_id: r2, .. } && r1@ == r2@)
            || (a is RateLimited && b is RateLimited),
    ensures
        api_from_engine(a) == api_from_engine(b),
{
}

} // verus!
