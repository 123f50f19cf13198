//! The chat-completions handler's decisions: admitting a request, the
//! routing trace it reports, the outcome of a streamed answer, the
//! lifecycle events it records, and the `/v1/models` and `/health` bodies.

use vstd::prelude::*;
use crate::anthropic::ModelInfo;
use crate::api_types::{ChatCompletionChunk, ChatCompletionRequest, ChatCompletionResponse, ModelObject, ModelsResponse};
use crate::error::{ApiError, ApiErrorView, EngineError, engine_message};
use crate::text::{copy_opt_string, copy_string, copy_strings, decimal, opt_view, push_decimal, push_str, strings_view, to_string};
use crate::tracker::{recorded, RequestEvent, RequestEventView, RequestTracker};

verus! {

/// The most messages one request may carry. The body limit bounds the
/// total size, not the per-message work (matching, templating, tokenizing).
pub const MAX_MESSAGES: usize = 100;

/// Why a request is refused, if it is: an unknown model (listing the
/// models there are), no messages, or too many messages.
pub open spec fn admission_issue(req: ChatCompletionRequest, known: bool, available: Seq<Seq<char>>) -> Option<ApiErrorView> {
    if !known {
        Some(ApiErrorView::ModelNotFound { requested: req.model@, available })
    } else if req.messages@.len() == 0 {
        Some(ApiErrorView::BadRequest("messages cannot be empty"@))
    } else if req.messages@.len() > MAX_MESSAGES {
        Some(ApiErrorView::BadRequest(
            "too many messages: "@ + decimal(req.messages@.len()) + " (max "@ + decimal(MAX_MESSAGES as nat) + ")"@,
        ))
    } else {
        None
    }
}

/// Admit a request for a model whose backend accepts at most `cap` tokens
/// (`None` when no backend serves the model). An admitted request has its
/// `max_tokens` lowered to the cap; nothing else changes.
pub fn admit_request(req: &mut ChatCompletionRequest, cap: Option<u32>, available: &Vec<String>) -> (r: Result<(), ApiError>)
    ensures
        match admission_issue(*old(req), cap is Some, strings_view(available@)) {
            Some(iss) => r matches Err(e) && e@ == iss && *final(req) == *old(req),
            None => r is Ok && *final(req) == (ChatCompletionRequest {
                max_tokens: if old(req).max_tokens > cap->0 { cap->0 } else { old(req).max_tokens },
                ..*old(req)
            }),
        },
{
    let c = match cap {
        None => {
            return Err(ApiError::ModelNotFound { requested: copy_string(&req.model), available: copy_strings(available) });
        },
        Some(c) => c,
    };
    if req.messages.len() == 0 {
        return Err(ApiError::BadRequest(to_string("messages cannot be empty")));
    }
    if req.messages.len() > MAX_MESSAGES {
        let mut m = to_string("too many messages: ");
        push_decimal(&mut m, req.messages.len() as u64);
        push_str(&mut m, " (max ");
        push_decimal(&mut m, MAX_MESSAGES as u64);
        push_str(&mut m, ")");
        return Err(ApiError::BadRequest(m));
    }
    if req.max_tokens > c {
        req.max_tokens = c;
    }
    Ok(())
}

// ---------------------------------------------------------------------
// Streaming
// ---------------------------------------------------------------------

/// Some choice of the chunk carries a finish reason.
pub open spec fn has_finish(c: ChatCompletionChunk) -> bool {
    exists|i: int| 0 <= i < c.choices@.len() && (#[trigger] c.choices@[i]).finish_reason is Some
}

pub fn chunk_has_finish(c: &ChatCompletionChunk) -> (r: bool)
    ensures
        r == has_finish(*c),
{
    let mut i: usize = 0;
    while i < c.choices.len()
        invariant
            i <= c.choices@.len(),
            forall|k: int| 0 <= k < i ==> (#[trigger] c.choices@[k]).finish_reason is None,
        decreases c.choices@.len() - i,
    {
        if c.choices[i].finish_reason.is_some() {
            return true;
        }
        i = i + 1;
    }
    false
}

/// How a streamed request ended.
#[derive(Clone, Copy, Debug, PartialEq, Eq, Structural)]
pub enum StreamStatus {
    /// The backend reported an error.
    ServerError,
    /// A chunk carried a finish reason.
    Success,
    /// Neither: the client went away.
    Canceled,
}

/// A backend error decides first; a finish reason means success; otherwise
/// the client went away.
pub fn stream_status(errored: bool, saw_finish: bool) -> (s: StreamStatus)
    ensures
        s == (if errored { StreamStatus::ServerError } else if saw_finish { StreamStatus::Success } else {
            StreamStatus::Canceled
        }),
{
    if errored {
        StreamStatus::ServerError
    } else if saw_finish {
        StreamStatus::Success
    } else {
        StreamStatus::Canceled
    }
}

impl StreamStatus {
    /// The label of the status in metrics and events.
    pub fn as_str(self) -> (r: &'static str)
        ensures
            r@ == (match self {
                StreamStatus::ServerError => "server_error"@,
                StreamStatus::Success => "success"@,
                StreamStatus::Canceled => "canceled"@,
            }),
    {
        match self {
            StreamStatus::ServerError => "server_error",
            StreamStatus::Success => "success",
            StreamStatus::Canceled => "canceled",
        }
    }
}

/// The event a finished stream records: completed on success, canceled
/// when the client went away, failed (with the error's reason, or the
/// status when there is none) on a backend error.
pub open spec fn stream_event_is(
    e: RequestEventView,
    status: StreamStatus,
    id: Seq<char>,
    ts: Seq<char>,
    backend: Seq<char>,
    duration_ms: u64,
    reason: Option<Seq<char>>,
) -> bool {
    match status {
        StreamStatus::Success => e == RequestEventView::Completed {
            id,
            ts,
            route: None,
            matched_rule: None,
            backend,
            fallback_count: 0,
            status: "ok"@,
            ttft_ms: None,
            duration_ms,
            prompt_tokens: 0,
            completion_tokens: 0,
        },
        StreamStatus::Canceled => e == RequestEventView::Canceled { id, ts, backend, duration_ms },
        StreamStatus::ServerError => e == RequestEventView::Failed {
            id,
            ts,
            backend,
            reason: match reason {
                Some(r) => r,
                None => "server_error"@,
            },
            duration_ms,
        },
    }
}

pub fn stream_event(
    status: StreamStatus,
    id: &str,
    ts: &str,
    backend: &str,
    duration_ms: u64,
    reason: Option<String>,
) -> (e: RequestEvent)
    ensures
        stream_event_is(e@, status, id@, ts@, backend@, duration_ms, opt_view(reason)),
{
    match status {
        StreamStatus::Success => RequestEvent::Completed {
            id: to_string(id),
            ts: to_string(ts),
            route: None,
            matched_rule: None,
            backend: to_string(backend),
            fallback_count: 0,
            status: to_string("ok"),
            ttft_ms: None,
            duration_ms,
            prompt_tokens: 0,
            completion_tokens: 0,
        },
        StreamStatus::Canceled => RequestEvent::Canceled {
            id: to_string(id),
            ts: to_string(ts),
            backend: to_string(backend),
            duration_ms,
        },
        StreamStatus::ServerError => RequestEvent::Failed {
            id: to_string(id),
            ts: to_string(ts),
            backend: to_string(backend),
            reason: match reason {
                Some(r) => r,
                None => to_string("server_error"),
            },
            duration_ms,
        },
    }
}

// ---------------------------------------------------------------------
// Non-streaming
// ---------------------------------------------------------------------

/// Which route and backend served a request, as routing reports it.
pub struct RouteTrace {
    pub route_id: Option<String>,
    pub rule: Option<String>,
    pub backend_id: Option<String>,
    pub fallback_count: u32,
}

/// The backend to report: the one routing names, else the requested model.
pub open spec fn backend_label(trace: RouteTrace, model: Seq<char>) -> Seq<char> {
    match trace.backend_id {
        Some(b) => b@,
        None => model,
    }
}

/// The event a finished non-streaming request records: completed with the
/// trace and the usage, or failed with the error's message.
pub open spec fn completion_event_is(
    e: RequestEventView,
    result: Result<ChatCompletionResponse, EngineError>,
    id: Seq<char>,
    ts: Seq<char>,
    trace: RouteTrace,
    model: Seq<char>,
    duration_ms: u64,
) -> bool {
    match result {
        Ok(resp) => e == RequestEventView::Completed {
            id,
            ts,
            route: opt_view(trace.route_id),
            matched_rule: opt_view(trace.rule),
            backend: backend_label(trace, model),
            fallback_count: trace.fallback_count,
            status: "ok"@,
            ttft_ms: None,
            duration_ms,
            prompt_tokens: resp.usage.prompt_tokens as u64,
            completion_tokens: resp.usage.completion_tokens as u64,
        },
        Err(err) => e == RequestEventView::Failed {
            id,
            ts,
            backend: backend_label(trace, model),
            reason: engine_message(err),
            duration_ms,
        },
    }
}

fn label(trace: &RouteTrace, model: &str) -> (r: String)
    ensures
        r@ == backend_label(*trace, model@),
{
    match &trace.backend_id {
        Some(b) => copy_string(b),
        None => to_string(model),
    }
}

pub fn completion_event(
    result: &Result<ChatCompletionResponse, EngineError>,
    id: &str,
    ts: &str,
    trace: &RouteTrace,
    model: &str,
    duration_ms: u64,
) -> (e: RequestEvent)
    ensures
        completion_event_is(e@, *result, id@, ts@, *trace, model@, duration_ms),
{
    match result {
        Ok(resp) => RequestEvent::Completed {
            id: to_string(id),
            ts: to_string(ts),
            route: copy_opt_string(&trace.route_id),
            matched_rule: copy_opt_string(&trace.rule),
            backend: label(trace, model),
            fallback_count: trace.fallback_count,
            status: to_string("ok"),
            ttft_ms: None,
            duration_ms,
            prompt_tokens: resp.usage.prompt_tokens as u64,
            completion_tokens: resp.usage.completion_tokens as u64,
        },
        Err(err) => RequestEvent::Failed {
            id: to_string(id),
            ts: to_string(ts),
            backend: label(trace, model),
            reason: err.message(),
            duration_ms,
        },
    }
}

/// The metric labels of a request: the route and backend routing reports,
/// or `direct` and the requested model when it reports no pair.
pub open spec fn metric_labels(trace: RouteTrace, model: Seq<char>) -> (Seq<char>, Seq<char>) {
    match (trace.route_id, trace.backend_id) {
        (Some(r), Some(b)) => (r@, b@),
        _ => ("direct"@, model),
    }
}

pub fn labels(trace: &RouteTrace, model: &str) -> (r: (String, String))
    ensures
        (r.0@, r.1@) == metric_labels(*trace, model@),
{
    match (&trace.route_id, &trace.backend_id) {
        (Some(r), Some(b)) => (copy_string(r), copy_string(b)),
        _ => (to_string("direct"), to_string(model)),
    }
}

/// The response headers that report the routing trace: the route (or
/// `direct`), the matched rule when there is one, the backend, and the
/// fallback count for a routed request.
pub open spec fn route_header(trace: RouteTrace) -> (Seq<char>, Seq<char>) {
    ("x-flarion-route"@, match trace.route_id { Some(r) => r@, None => "direct"@ })
}

pub open spec fn rule_headers(trace: RouteTrace) -> Seq<(Seq<char>, Seq<char>)> {
    match trace.rule { Some(r) => seq![("x-flarion-rule"@, r@)], None => Seq::empty() }
}

pub open spec fn fallback_headers(trace: RouteTrace) -> Seq<(Seq<char>, Seq<char>)> {
    if trace.route_id is Some {
        seq![("x-flarion-fallback-count"@, decimal(trace.fallback_count as nat))]
    } else {
        Seq::empty()
    }
}

pub open spec fn trace_headers_are(h: Seq<(Seq<char>, Seq<char>)>, trace: RouteTrace, model: Seq<char>) -> bool {
    h == seq![route_header(trace)] + rule_headers(trace) + seq![("x-flarion-backend"@, backend_label(trace, model))]
        + fallback_headers(trace)
}

pub open spec fn pairs_view(v: Seq<(String, String)>) -> Seq<(Seq<char>, Seq<char>)> {
    v.map_values(|p: (String, String)| (p.0@, p.1@))
}

pub fn trace_headers(trace: &RouteTrace, model: &str) -> (h: Vec<(String, String)>)
    ensures
        trace_headers_are(pairs_view(h@), *trace, model@),
{
    let mut h: Vec<(String, String)> = Vec::new();
    let route = match &trace.route_id {
        Some(r) => copy_string(r),
        None => to_string("direct"),
    };
    h.push((to_string("x-flarion-route"), route));
    if let Some(rule) = &trace.rule {
        h.push((to_string("x-flarion-rule"), copy_string(rule)));
    }
    h.push((to_string("x-flarion-backend"), label(trace, model)));
    if trace.route_id.is_some() {
        let mut n = String::new();
        push_decimal(&mut n, trace.fallback_count as u64);
        h.push((to_string("x-flarion-fallback-count"), n));
    }
    assert(pairs_view(h@) =~= seq![route_header(*trace)] + rule_headers(*trace)
        + seq![("x-flarion-backend"@, backend_label(*trace, model@))] + fallback_headers(*trace));
    h
}

// ---------------------------------------------------------------------
// Listing and health
// ---------------------------------------------------------------------

/// The `/v1/models` body: one entry per backend, owned by its provider,
/// all created at `now`.
pub fn list_models(infos: &Vec<ModelInfo>, now: i64) -> (r: ModelsResponse)
    ensures
        r.object@ == "list"@,
        r.data@.len() == infos@.len(),
        forall|i: int| 0 <= i < infos@.len() ==> {
            let (d, m) = (#[trigger] r.data@[i], infos@[i]);
            &&& d.id@ == m.id@
            &&& d.object@ == "model"@
            &&& d.created == now
            &&& d.owned_by@ == m.provider@
        },
{
    let mut data: Vec<ModelObject> = Vec::new();
    let mut i: usize = 0;
    while i < infos.len()
        invariant
            i <= infos@.len(),
            data@.len() == i,
            forall|k: int| 0 <= k < i ==> {
                let (d, m) = (#[trigger] data@[k], infos@[k]);
                &&& d.id@ == m.id@
                &&& d.object@ == "model"@
                &&& d.created == now
                &&& d.owned_by@ == m.provider@
            },
        decreases infos@.len() - i,
    {
        data.push(ModelObject {
            id: copy_string(&infos[i].id),
            object: to_string("model"),
            created: now,
            owned_by: copy_string(&infos[i].provider),
        });
        i = i + 1;
    }
    ModelsResponse { object: to_string("list"), data }
}

/// Healthy when at least one backend is registered and all are loaded.
pub open spec fn all_healthy(infos: Seq<ModelInfo>) -> bool {
    infos.len() > 0 && forall|i: int| 0 <= i < infos.len() ==> (#[trigger] infos[i]).loaded
}

/// The `/health` status: `ok` or `degraded`. Nothing else is disclosed to
/// unauthenticated callers.
pub fn health_status(infos: &Vec<ModelInfo>) -> (r: &'static str)
    ensures
        r@ == (if all_healthy(infos@) { "ok"@ } else { "degraded"@ }),
{
    if infos.len() == 0 {
        return "degraded";
    }
    let mut i: usize = 0;
    while i < infos.len()
        invariant
            i <= infos@.len(),
            forall|k: int| 0 <= k < i ==> (#[trigger] infos@[k]).loaded,
        decreases infos@.len() - i,
    {
        if !infos[i].loaded {
            return "degraded";
        }
        i = i + 1;
    }
    "ok"
}

// ---------------------------------------------------------------------
// Bracketing a request in the tracker
// ---------------------------------------------------------------------

/// A request to `model_id` begins: it is counted in flight, then its
/// `Started` event is recorded.
pub fn request_started(tracker: &mut RequestTracker, model_id: &str, started: RequestEvent)
    requires
        old(tracker).wf(),
        started is Started,
    ensures
        final(tracker).wf(),
        final(tracker).cap() == old(tracker).cap(),
        final(tracker).events() == recorded(old(tracker).events(), old(tracker).cap(), started),
        final(tracker).count(model_id@) == old(tracker).count(model_id@).wrapping_add(1),
        forall|o: Seq<char>| o != model_id@ ==> final(tracker).count(o) == old(tracker).count(o),
{
    tracker.in_flight_inc(model_id);
    tracker.record(started);
}

/// A request to `model_id` ends: it is no longer counted in flight, then
/// its outcome (`Completed`, `Failed` or `Canceled`) is recorded.
pub fn request_finished(tracker: &mut RequestTracker, model_id: &str, outcome: RequestEvent)
    requires
        old(tracker).wf(),
        outcome is Completed || outcome is Failed || outcome is Canceled,
    ensures
        final(tracker).wf(),
        final(tracker).cap() == old(tracker).cap(),
        final(tracker).events() == recorded(old(tracker).events(), old(tracker).cap(), outcome),
        final(tracker).count(model_id@) == old(tracker).count(model_id@).wrapping_sub(1),
        forall|o: Seq<char>| o != model_id@ ==> final(tracker).count(o) == old(tracker).count(o),
{
    tracker.in_flight_dec(model_id);
    tracker.record(outcome);
}

/// A request that began and ended leaves every in-flight count as it
/// was, and, in a log holding at least two events, its `Started` event is
/// followed directly by its outcome as the newest two.
pub proof fn law_request_bracketed(
    before: RequestTracker,
    during: RequestTracker,
    after: RequestTracker,
    model_id: Seq<char>,
    started: RequestEvent,
    outcome: RequestEvent,
)
    requires
        during.cap() == before.cap(),
        during.events() == recorded(before.events(), before.cap(), started),
        during.count(model_id) == before.count(model_id).wrapping_add(1),
        forall|o: Seq<char>| o != model_id ==> during.count(o) == before.count(o),
        after.cap() == during.cap(),
        after.events() == recorded(during.events(), during.cap(), outcome),
        after.count(model_id) == during.count(model_id).wrapping_sub(1),
        forall|o: Seq<char>| o != model_id ==> after.count(o) == during.count(o),
        before.cap() >= 2,
        before.events().len() <= before.cap(),
    ensures
        forall|o: Seq<char>| #[trigger] after.count(o) == before.count(o),
        after.events().len() >= 2,
        after.events()[after.events().len() - 2] == started,
        after.events().last() == outcome,
{
    assert forall|o: Seq<char>| #[trigger] after.count(o) == before.count(o) by {
        if o == model_id {
            crate::tracker::law_in_flight_balanced(before.count(model_id), after.count(model_id));
        }
    }
    let h0 = before.events();
    let h1 = during.events();
    assert(h1.len() <= before.cap());
    assert(h1.last() == started);
    assert(h1.len() >= 1);
}

// ---------------------------------------------------------------------
// Laws
// ---------------------------------------------------------------------

/// An admitted request never asks for more tokens than its backend's cap,
/// and keeps what it asked for when that is within the cap.
pub proof fn law_admitted_within_cap(before: ChatCompletionRequest, after: ChatCompletionRequest, cap: u32)
    requires
        after == (ChatCompletionRequest {
            max_tokens: if before.max_tokens > cap { cap } else { before.max_tokens },
            ..before
        }),
    ensures
        after.max_tokens <= cap,
        before.max_tokens <= cap ==> after.max_tokens == before.max_tokens,
{
}

/// A refused request is refused for a reason the client can read: a
/// missing model answers 404, a bad message count 400.
pub proof fn law_refusals_are_client_errors(req: ChatCompletionRequest, known: bool, available: Seq<Seq<char>>)
    requires
        admission_issue(req, known, available) is Some,
    ensures
        crate::error::api_status(admission_issue(req, known, available)->0) == (if known { 400u16 } else { 404u16 }),
{
}

} // verus!
