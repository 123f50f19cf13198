use flarion::anthropic::ModelInfo;
use flarion::api_types::{ChatCompletionRequest, ChatMessage};
use flarion::auth::{authorize, AuthState};
use flarion::chat::{
    admit_request, completion_event, health_status, labels, list_models, request_finished, request_started,
    stream_event, stream_status, trace_headers, RouteTrace, StreamStatus,
};
use flarion::error::{ApiError, EngineError};
use flarion::testing::chunk;
use flarion::tracker::{RequestEvent, RequestTracker};

fn msg(role: &str, content: &str) -> ChatMessage {
    ChatMessage { role: role.into(), content: content.into() }
}

fn request(model: &str, n_messages: usize, max_tokens: u32) -> ChatCompletionRequest {
    ChatCompletionRequest {
        model: model.into(),
        messages: (0..n_messages).map(|_| msg("user", "hi")).collect(),
        stream: false,
        temperature_bits: 0x3f333333,
        top_p_bits: 0x3f666666,
        max_tokens,
        stop: vec![],
        seed: None,
    }
}

fn info(id: &str, loaded: bool) -> ModelInfo {
    ModelInfo { id: id.into(), context_size: 4096, loaded, provider: "local".into() }
}

#[test]
fn admission_lowers_max_tokens_to_the_cap() {
    let mut req = request("m", 1, 4096);
    assert!(admit_request(&mut req, Some(1024), &vec!["m".to_string()]).is_ok());
    assert_eq!(req.max_tokens, 1024);
    let mut small = request("m", 1, 100);
    assert!(admit_request(&mut small, Some(1024), &vec![]).is_ok());
    assert_eq!(small.max_tokens, 100);
}

#[test]
fn admission_refuses_unknown_models_and_bad_message_counts() {
    let mut req = request("ghost", 1, 10);
    match admit_request(&mut req, None, &vec!["a".to_string(), "b".to_string()]) {
        Err(ApiError::ModelNotFound { requested, available }) => {
            assert_eq!(requested, "ghost");
            assert_eq!(available, vec!["a".to_string(), "b".to_string()]);
        }
        other => panic!("unexpected {other:?}"),
    }
    let mut empty = request("m", 0, 10);
    match admit_request(&mut empty, Some(10), &vec![]) {
        Err(ApiError::BadRequest(m)) => assert_eq!(m, "messages cannot be empty"),
        other => panic!("unexpected {other:?}"),
    }
    let mut many = request("m", 101, 10);
    match admit_request(&mut many, Some(10), &vec![]) {
        Err(e) => {
            assert_eq!(e.status_code(), 400);
            assert_eq!(e.message(), "invalid request: too many messages: 101 (max 100)");
        }
        Ok(()) => panic!("expected a refusal"),
    }
    let mut hundred = request("m", 100, 10);
    assert!(admit_request(&mut hundred, Some(10), &vec![]).is_ok());
}

#[test]
fn stream_status_precedence() {
    assert_eq!(stream_status(true, true), StreamStatus::ServerError);
    assert_eq!(stream_status(false, true), StreamStatus::Success);
    assert_eq!(stream_status(false, false), StreamStatus::Canceled);
    assert_eq!(StreamStatus::Success.as_str(), "success");
    assert_eq!(StreamStatus::Canceled.as_str(), "canceled");
    assert_eq!(StreamStatus::ServerError.as_str(), "server_error");
}

#[test]
fn stream_events_by_status() {
    match stream_event(StreamStatus::ServerError, "r1", "t", "m", 7, None) {
        RequestEvent::Failed { reason, duration_ms, .. } => {
            assert_eq!(reason, "server_error");
            assert_eq!(duration_ms, 7);
        }
        other => panic!("unexpected {other:?}"),
    }
    match stream_event(StreamStatus::Success, "r1", "t", "m", 7, None) {
        RequestEvent::Completed { status, backend, .. } => {
            assert_eq!(status, "ok");
            assert_eq!(backend, "m");
        }
        other => panic!("unexpected {other:?}"),
    }
    assert!(matches!(
        stream_event(StreamStatus::Canceled, "r1", "t", "m", 7, None),
        RequestEvent::Canceled { .. }
    ));
}

#[test]
fn finish_reasons_are_detected_in_chunks() {
    assert!(flarion::chat::chunk_has_finish(&chunk("i", "m", None, Some("stop"))));
    assert!(!flarion::chat::chunk_has_finish(&chunk("i", "m", Some("x"), None)));
}

fn routed() -> RouteTrace {
    RouteTrace {
        route_id: Some("fast".into()),
        rule: Some("short".into()),
        backend_id: Some("small".into()),
        fallback_count: 1,
    }
}

fn direct() -> RouteTrace {
    RouteTrace { route_id: None, rule: None, backend_id: None, fallback_count: 0 }
}

#[test]
fn trace_headers_for_routed_and_direct_requests() {
    let h = trace_headers(&routed(), "fast");
    let pairs: Vec<(&str, &str)> = h.iter().map(|(a, b)| (a.as_str(), b.as_str())).collect();
    assert_eq!(
        pairs,
        vec![
            ("x-flarion-route", "fast"),
            ("x-flarion-rule", "short"),
            ("x-flarion-backend", "small"),
            ("x-flarion-fallback-count", "1"),
        ]
    );
    let h = trace_headers(&direct(), "m1");
    let pairs: Vec<(&str, &str)> = h.iter().map(|(a, b)| (a.as_str(), b.as_str())).collect();
    assert_eq!(pairs, vec![("x-flarion-route", "direct"), ("x-flarion-backend", "m1")]);
}

#[test]
fn metric_labels_fall_back_to_direct() {
    assert_eq!(labels(&routed(), "fast"), ("fast".to_string(), "small".to_string()));
    assert_eq!(labels(&direct(), "m1"), ("direct".to_string(), "m1".to_string()));
}

#[test]
fn completion_events_carry_usage_or_the_error() {
    let mut mock = flarion::testing::MockBackend::succeeding("m1", "hi");
    let resp = match mock.chat_completion() {
        flarion::testing::MockOutcome::Respond(Ok(r)) => r,
        _ => panic!("expected a response"),
    };
    match completion_event(&Ok(resp), "r", "t", &routed(), "fast", 9) {
        RequestEvent::Completed { route, matched_rule, backend, fallback_count, prompt_tokens, .. } => {
            assert_eq!(route.as_deref(), Some("fast"));
            assert_eq!(matched_rule.as_deref(), Some("short"));
            assert_eq!(backend, "small");
            assert_eq!(fallback_count, 1);
            assert_eq!(prompt_tokens, 1);
        }
        other => panic!("unexpected {other:?}"),
    }
    match completion_event(&Err(EngineError::Timeout), "r", "t", &direct(), "m1", 9) {
        RequestEvent::Failed { reason, backend, .. } => {
            assert_eq!(reason, "request timed out");
            assert_eq!(backend, "m1");
        }
        other => panic!("unexpected {other:?}"),
    }
}

#[test]
fn models_listing_and_health() {
    let infos = vec![info("a", true), info("b", false)];
    let r = list_models(&infos, 42);
    assert_eq!(r.object, "list");
    assert_eq!(r.data.len(), 2);
    assert_eq!(r.data[1].id, "b");
    assert_eq!(r.data[1].owned_by, "local");
    assert_eq!(r.data[0].created, 42);
    assert_eq!(health_status(&infos), "degraded");
    assert_eq!(health_status(&vec![info("a", true)]), "ok");
    assert_eq!(health_status(&vec![]), "degraded");
}

fn keys(ks: &[&str]) -> AuthState {
    AuthState { api_keys: ks.iter().map(|k| k.to_string()).collect() }
}

#[test]
fn test_no_keys_passes_through() {
    assert!(authorize(&keys(&[]), "/v1/models", None));
}

#[test]
fn test_metrics_requires_auth_when_keys_set() {
    assert!(!authorize(&keys(&["k1"]), "/metrics", None));
}

#[test]
fn test_metrics_open_when_no_keys() {
    assert!(authorize(&keys(&[]), "/metrics", None));
}

#[test]
fn test_health_open_when_keys_set() {
    assert!(authorize(&keys(&["k1"]), "/health", None));
}

#[test]
fn test_v1_requires_bearer() {
    assert!(!authorize(&keys(&["k1"]), "/v1/models", None));
    assert!(!authorize(&keys(&["k1"]), "/v1/models", Some("k1")));
}

#[test]
fn test_v1_accepts_valid_bearer() {
    assert!(authorize(&keys(&["k1"]), "/v1/models", Some("Bearer k1")));
}

#[test]
fn test_v1_rejects_wrong_key() {
    assert!(!authorize(&keys(&["k1"]), "/v1/models", Some("Bearer nope")));
}

#[test]
fn test_v1_accepts_one_of_multiple_keys() {
    assert!(authorize(&keys(&["k1", "k2", "k3"]), "/v1/chat/completions", Some("Bearer k2")));
}

#[test]
fn request_is_bracketed_by_started_and_completed() {
    let mut t = RequestTracker::new(100);
    request_started(&mut t, "m", RequestEvent::Started { id: "r1".into(), ts: "T0".into(), route: None, backend: "m".into() });
    assert_eq!(t.in_flight("m"), 1);
    request_finished(
        &mut t,
        "m",
        RequestEvent::Failed { id: "r1".into(), ts: "T1".into(), backend: "m".into(), reason: "x".into(), duration_ms: 3 },
    );
    assert_eq!(t.in_flight("m"), 0, "counter must be balanced");
    let events = t.tail(10);
    assert_eq!(events.len(), 2);
    assert!(matches!(events[0], RequestEvent::Started { .. }));
    assert!(matches!(events[1], RequestEvent::Failed { .. }));
}

#[test]
fn tracker_keeps_the_most_recent_events() {
    let mut t = RequestTracker::new(2);
    for missed in [1u64, 2, 3] {
        t.record(RequestEvent::Gap { missed });
    }
    let events = t.tail(10);
    assert_eq!(events.len(), 2);
    assert!(matches!(events[0], RequestEvent::Gap { missed: 2 }));
    assert!(matches!(events[1], RequestEvent::Gap { missed: 3 }));
}
