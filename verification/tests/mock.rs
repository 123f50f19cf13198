use flarion::error::EngineError;
use flarion::testing::{MockBackend, MockBehavior, MockOutcome};

fn contents(plan_chunks: &[flarion::api_types::ChatCompletionChunk]) -> Vec<String> {
    plan_chunks
        .iter()
        .filter_map(|c| c.choices[0].delta.content.clone())
        .collect()
}

#[test]
fn succeeding_returns_response() {
    let mut backend = MockBackend::succeeding("m1", "hello");
    match backend.chat_completion() {
        MockOutcome::Respond(Ok(resp)) => {
            assert_eq!(resp.choices[0].message.content, "hello");
            assert_eq!(resp.id, "chatcmpl-mock-m1");
            assert_eq!(resp.usage.total_tokens, 2);
        }
        _ => panic!("expected a response"),
    }
    assert_eq!(backend.call_count(), 1);
}

#[test]
fn failing_returns_error() {
    let mut backend = MockBackend::failing("m1", EngineError::Network("down".into()));
    match backend.chat_completion() {
        MockOutcome::Respond(Err(e)) => assert!(matches!(e, EngineError::Network(ref m) if m == "down")),
        _ => panic!("expected an error"),
    }
}

#[test]
fn timing_out_returns_timeout_after_delay() {
    let mut backend = MockBackend::timing_out("m1", 10);
    match backend.chat_completion() {
        MockOutcome::TimeOut(ms) => assert_eq!(ms, 10),
        _ => panic!("expected a timeout"),
    }
}

#[test]
fn streaming_chunks_emits_all_chunks() {
    let mut backend = MockBackend::streaming_chunks("m1", vec!["foo".into(), "bar".into()]);
    let plan = backend.stream_plan();
    assert!(plan.end.is_ok());
    assert_eq!(plan.time_out_ms, None);
    assert_eq!(contents(&plan.chunks), vec!["foo".to_string(), "bar".to_string()]);
    let last = plan.chunks.last().unwrap();
    assert_eq!(last.choices[0].finish_reason.as_deref(), Some("stop"));
    assert_eq!(last.id, "chatcmpl-mock-m1");
}

#[test]
fn streaming_then_error_emits_chunks_then_errors() {
    let mut backend = MockBackend::streaming_then_error(
        "m1",
        vec!["a".into(), "b".into()],
        EngineError::Network("broke".into()),
    );
    let plan = backend.stream_plan();
    assert_eq!(plan.chunks.len(), 2);
    assert_eq!(contents(&plan.chunks), vec!["a".to_string(), "b".to_string()]);
    assert!(matches!(plan.end, Err(EngineError::Network(ref m)) if m == "broke"));
}

#[test]
fn streaming_paced_carries_the_delay() {
    let mut backend = MockBackend::streaming_paced("m1", vec!["x".into(), "y".into()], 25);
    let plan = backend.stream_plan();
    assert_eq!(plan.delay_ms, 25);
    assert_eq!(plan.chunks.len(), 3);
}

#[test]
fn behaviours_are_used_in_order_then_the_last_repeats() {
    let mut backend = MockBackend::with_behaviors(
        "m1",
        vec![
            MockBehavior::Fail { template: EngineError::Timeout },
            MockBehavior::Timeout { delay_ms: 5 },
        ],
    );
    assert!(matches!(backend.chat_completion(), MockOutcome::Respond(Err(EngineError::Timeout))));
    assert!(matches!(backend.chat_completion(), MockOutcome::TimeOut(5)));
    assert!(matches!(backend.chat_completion(), MockOutcome::TimeOut(5)));
    assert_eq!(backend.call_count(), 3);
}

#[test]
fn streaming_behaviour_on_plain_call_is_an_error() {
    let mut backend = MockBackend::streaming_chunks("m1", vec!["a".into()]);
    match backend.chat_completion() {
        MockOutcome::Respond(Err(EngineError::InferenceFailed(m))) => {
            assert_eq!(m, "streaming behavior invoked on non-streaming path")
        }
        _ => panic!("expected an inference failure"),
    }
}

#[test]
fn model_info_and_caps() {
    let backend = MockBackend::succeeding("m9", "x");
    let info = backend.model_info();
    assert_eq!(info.id, "m9");
    assert_eq!(info.context_size, 4096);
    assert!(info.loaded);
    assert_eq!(info.provider, "mock");
    assert_eq!(backend.provider(), "mock");
    assert_eq!(backend.max_tokens_cap(), 8192);
    let capped = MockBackend::succeeding("m9", "x").with_max_tokens_cap(16);
    assert_eq!(capped.max_tokens_cap(), 16);
}

#[test]
fn cancellation_is_recorded() {
    let mut backend = MockBackend::streaming_chunks("m1", vec![]);
    assert!(!backend.cancel_observed());
    backend.observe_cancel();
    assert!(backend.cancel_observed());
}

#[test]
fn route_errors_copy_lossily() {
    let e = EngineError::AllBackendsFailed { route_id: "r1".into(), attempts: vec![] };
    match MockBackend::clone_err(&e) {
        EngineError::InferenceFailed(m) => assert_eq!(m, "cloned AllBackendsFailed for route 'r1' (lossy)"),
        other => panic!("unexpected {other:?}"),
    }
}

#[test]
fn dropped_receiver_during_content_cancels_the_stream() {
    let mut backend = MockBackend::streaming_chunks("m1", vec!["a".into(), "b".into()]);
    let plan = backend.stream_plan();
    assert_eq!(plan.watched, 2);
    assert!(backend.chunk_delivered(&plan, 0, true));
    assert!(!backend.cancel_observed());
    assert!(!backend.chunk_delivered(&plan, 1, false));
    assert!(backend.cancel_observed());
}

#[test]
fn undelivered_final_chunk_is_not_a_cancellation() {
    let mut backend = MockBackend::streaming_chunks("m1", vec!["a".into()]);
    let plan = backend.stream_plan();
    assert!(backend.chunk_delivered(&plan, 1, false));
    assert!(!backend.cancel_observed());
    let mut ok = MockBackend::succeeding("m2", "hi");
    let p2 = ok.stream_plan();
    assert!(ok.chunk_delivered(&p2, 0, false));
    assert!(!ok.cancel_observed());
}

#[test]
fn mock_counts_every_call() {
    let mut backend = MockBackend::streaming_chunks("m1", vec![]);
    for k in 0..3 {
        assert_eq!(backend.call_count(), k);
        let _ = backend.stream_plan();
    }
    assert_eq!(backend.call_count(), 3);
}

#[test]
fn stream_to_a_dropped_receiver_succeeds_and_records_the_cancellation() {
    let mut backend = MockBackend::streaming_chunks("m1", vec!["a".into(), "b".into()]);
    assert!(!backend.cancel_observed());
    let plan = backend.stream_plan();
    let (sent, result) = backend.run_stream(plan, &vec![false, false, false]);
    assert_eq!(sent, 1);
    assert!(result.is_ok());
    assert!(backend.cancel_observed());
}

#[test]
fn stream_to_a_present_receiver_ends_as_planned() {
    let mut backend = MockBackend::streaming_then_error("m1", vec!["a".into()], EngineError::Network("broke".into()));
    let plan = backend.stream_plan();
    let (sent, result) = backend.run_stream(plan, &vec![true]);
    assert_eq!(sent, 1);
    assert!(matches!(result, Err(EngineError::Network(ref m)) if m == "broke"));
    assert!(!backend.cancel_observed());
}
