use flarion::anthropic::{
    from_anthropic_response, map_stop_reason, to_anthropic_request, AnthropicBackend, AnthropicContent,
    AnthropicContentDelta, AnthropicMessageDelta, AnthropicResponse, AnthropicStreamEvent, AnthropicUsage,
    AnthropicUsageDelta, StreamAction,
};
use flarion::api_types::{ChatCompletionRequest, ChatMessage};
use flarion::config::{BackendType, ModelConfig};

fn make_req(messages: Vec<(&str, &str)>) -> ChatCompletionRequest {
    ChatCompletionRequest {
        model: "haiku-x".into(),
        messages: messages
            .into_iter()
            .map(|(role, content)| ChatMessage { role: role.into(), content: content.into() })
            .collect(),
        stream: false,
        temperature_bits: 0.7f32.to_bits(),
        top_p_bits: 0.9f32.to_bits(),
        max_tokens: 100,
        stop: vec![],
        seed: None,
    }
}

fn haiku_cfg(base_url: Option<&str>) -> ModelConfig {
    ModelConfig {
        id: "haiku-x".into(),
        backend: BackendType::Anthropic,
        path: None,
        context_size: 4096,
        gpu_layers: 99,
        threads: None,
        batch_size: None,
        seed: None,
        api_key: Some("sk-ant".into()),
        base_url: base_url.map(String::from),
        upstream_model: None,
        timeout_secs: None,
        max_tokens_cap: None,
        lazy: false,
        vram_mb: None,
        pin: false,
        gpus: vec![],
        repo: None,
        revision: None,
        dtype: None,
        hf_token_env: None,
        adapters: vec![],
    }
}

#[test]
fn test_to_anthropic_extracts_system() {
    let req = make_req(vec![("system", "You are helpful."), ("user", "Hi")]);
    let translated = to_anthropic_request(&req, "haiku-3-opus", false);
    assert_eq!(translated.system.as_deref(), Some("You are helpful."));
    assert_eq!(translated.messages.len(), 1);
    assert_eq!(translated.messages[0].role, "user");
    assert_eq!(translated.messages[0].content, "Hi");
}

#[test]
fn test_to_anthropic_combines_multiple_systems() {
    let req = make_req(vec![("system", "First."), ("user", "Hi"), ("system", "Second.")]);
    let translated = to_anthropic_request(&req, "x", false);
    assert_eq!(translated.system.as_deref(), Some("First.\n\nSecond."));
}

#[test]
fn test_to_anthropic_no_system_means_none() {
    let req = make_req(vec![("user", "Hi"), ("assistant", "Hey")]);
    let translated = to_anthropic_request(&req, "x", false);
    assert!(translated.system.is_none());
    assert_eq!(translated.messages.len(), 2);
}

#[test]
fn test_to_anthropic_maps_stop_sequences() {
    let mut req = make_req(vec![("user", "Hi")]);
    req.stop = vec!["END".to_string(), "STOP".to_string()];
    let translated = to_anthropic_request(&req, "x", false);
    assert_eq!(translated.stop_sequences, Some(vec!["END".to_string(), "STOP".to_string()]));
}

#[test]
fn test_to_anthropic_empty_stop_omitted() {
    let req = make_req(vec![("user", "Hi")]);
    let translated = to_anthropic_request(&req, "x", false);
    assert!(translated.stop_sequences.is_none());
}

#[test]
fn test_to_anthropic_passes_max_tokens() {
    let mut req = make_req(vec![("user", "Hi")]);
    req.max_tokens = 8192;
    let translated = to_anthropic_request(&req, "x", false);
    assert_eq!(translated.max_tokens, 8192);
}

#[test]
fn to_anthropic_carries_model_sampling_and_stream() {
    let req = make_req(vec![("system", "S"), ("user", "U")]);
    let translated = to_anthropic_request(&req, "haiku", true);
    assert_eq!(translated.model, "haiku");
    assert_eq!(translated.system.as_deref(), Some("S"));
    assert_eq!(translated.messages[0].role, "user");
    assert!(translated.stream);
    assert_eq!(translated.temperature_bits, Some(0.7f32.to_bits()));
    assert_eq!(translated.top_p_bits, Some(0.9f32.to_bits()));
}

#[test]
fn test_from_anthropic_concatenates_text_blocks() {
    let resp = AnthropicResponse {
        id: "msg_1".into(),
        model: "haiku".into(),
        content: vec![
            AnthropicContent { content_type: "text".into(), text: "Hello, ".into() },
            AnthropicContent { content_type: "text".into(), text: "world!".into() },
        ],
        stop_reason: Some("end_turn".into()),
        usage: AnthropicUsage { input_tokens: 5, output_tokens: 3 },
    };
    let result = from_anthropic_response(resp, "haiku-local".into(), "req-id".into(), 1700000000);
    assert_eq!(result.choices[0].message.content, "Hello, world!");
    assert_eq!(result.choices[0].finish_reason, "stop");
    assert_eq!(result.usage.prompt_tokens, 5);
    assert_eq!(result.usage.completion_tokens, 3);
    assert_eq!(result.usage.total_tokens, 8);
    assert_eq!(result.model, "haiku-local");
    assert_eq!(result.id, "req-id");
}

#[test]
fn test_from_anthropic_filters_non_text_blocks() {
    let resp = AnthropicResponse {
        id: "x".into(),
        model: "x".into(),
        content: vec![
            AnthropicContent { content_type: "text".into(), text: "keep".into() },
            AnthropicContent { content_type: "tool_use".into(), text: "drop".into() },
        ],
        stop_reason: None,
        usage: AnthropicUsage { input_tokens: 0, output_tokens: 0 },
    };
    let result = from_anthropic_response(resp, "x".into(), "x".into(), 0);
    assert_eq!(result.choices[0].message.content, "keep");
}

#[test]
fn test_map_stop_reason() {
    assert_eq!(map_stop_reason(Some("end_turn")), "stop");
    assert_eq!(map_stop_reason(Some("max_tokens")), "length");
    assert_eq!(map_stop_reason(Some("stop_sequence")), "stop");
    assert_eq!(map_stop_reason(None), "stop");
    assert_eq!(map_stop_reason(Some("unknown")), "stop");
}

#[test]
fn anthropic_test_endpoint_handles_trailing_slash() {
    let backend = AnthropicBackend::new(&haiku_cfg(Some("https://api.anthropic.com/v1/"))).unwrap();
    assert_eq!(backend.endpoint(), "https://api.anthropic.com/v1/messages");
}

#[test]
fn anthropic_test_provider_field() {
    let backend = AnthropicBackend::new(&haiku_cfg(None)).unwrap();
    assert_eq!(backend.provider(), "anthropic");
    assert_eq!(backend.model_info().provider, "anthropic");
    assert_eq!(backend.base_url, "https://api.anthropic.com/v1");
    assert_eq!(backend.upstream_model, "haiku-x");
    assert_eq!(backend.timeout_secs, 300);
    assert_eq!(backend.max_tokens_cap(), 8192);
}

#[test]
fn new_without_api_key_fails() {
    let mut cfg = haiku_cfg(None);
    cfg.api_key = None;
    match AnthropicBackend::new(&cfg) {
        Err(flarion::error::EngineError::ModelLoadFailed(m)) => {
            assert_eq!(m, "model 'haiku-x': api_key required for anthropic backend")
        }
        _ => panic!("a missing key is a load failure"),
    }
}

#[test]
fn stream_events_become_chunks() {
    let backend = AnthropicBackend::new(&haiku_cfg(None)).unwrap();
    match backend.stream_event_action(&AnthropicStreamEvent::MessageStart, "req-1", 42) {
        StreamAction::Send(c) => {
            assert_eq!(c.id, "req-1");
            assert_eq!(c.model, "haiku-x");
            assert_eq!(c.created, 42);
            assert_eq!(c.choices[0].delta.role.as_deref(), Some("assistant"));
        }
        _ => panic!("the opening event announces the role"),
    }
    let delta = AnthropicStreamEvent::ContentBlockDelta {
        index: 0,
        delta: AnthropicContentDelta { delta_type: "text_delta".into(), text: "Hi".into() },
    };
    match backend.stream_event_action(&delta, "req-1", 42) {
        StreamAction::Send(c) => assert_eq!(c.choices[0].delta.content.as_deref(), Some("Hi")),
        _ => panic!("a text delta is forwarded"),
    }
    let empty = AnthropicStreamEvent::ContentBlockDelta {
        index: 0,
        delta: AnthropicContentDelta { delta_type: "text_delta".into(), text: "".into() },
    };
    assert!(matches!(backend.stream_event_action(&empty, "req-1", 42), StreamAction::Skip));
    let stop = AnthropicStreamEvent::MessageDelta {
        delta: AnthropicMessageDelta { stop_reason: Some("max_tokens".into()) },
        usage: AnthropicUsageDelta { output_tokens: 5 },
    };
    match backend.stream_event_action(&stop, "req-1", 42) {
        StreamAction::Send(c) => assert_eq!(c.choices[0].finish_reason.as_deref(), Some("length")),
        _ => panic!("a stop reason is forwarded"),
    }
    assert!(matches!(backend.stream_event_action(&AnthropicStreamEvent::Ping, "req-1", 42), StreamAction::Skip));
    assert!(matches!(backend.stream_event_action(&AnthropicStreamEvent::Error, "req-1", 42), StreamAction::Stop));
}

#[test]
fn anthropic_reply_statuses_are_classified() {
    let backend = AnthropicBackend::new(&haiku_cfg(None)).unwrap();
    assert!(backend.check_reply(200, None, "").is_ok());
    assert!(matches!(
        backend.check_reply(429, Some("7"), "{}"),
        Err(flarion::error::EngineError::RateLimited { retry_after_secs: Some(7) })
    ));
    match backend.check_reply(529, None, r#"{"error":{"message":"overloaded"}}"#) {
        Err(flarion::error::EngineError::UpstreamServerError { status, body }) => {
            assert_eq!(status, 529);
            assert!(body.starts_with("upstream anthropic 529"));
            assert!(body.ends_with(": overloaded"));
        }
        other => panic!("got {other:?}"),
    }
    assert!(matches!(
        backend.check_reply(400, None, "bad"),
        Err(flarion::error::EngineError::InferenceFailed(_))
    ));
}
