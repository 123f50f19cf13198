use flarion::api_types::{
    ChatCompletionChoice, ChatCompletionChunk, ChatCompletionChunkChoice, ChatCompletionRequest, ChatCompletionResponse,
    ChatDelta, ChatMessage, Usage,
};
use flarion::cloud::{check_reply, parse_u64, rate_limited, reply_error, request_error, upstream_error, RequestFailure};
use flarion::config::{BackendType, ModelConfig};
use flarion::error::EngineError;
use flarion::openai::{is_done_event, OpenAICompatibleBackend, GROQ_DEFAULT_BASE_URL, OPENAI_DEFAULT_BASE_URL};

fn cfg(id: &str, backend: BackendType, api_key: Option<&str>) -> ModelConfig {
    ModelConfig {
        id: id.to_string(),
        backend,
        path: None,
        context_size: 4096,
        gpu_layers: 99,
        threads: None,
        batch_size: None,
        seed: None,
        api_key: api_key.map(String::from),
        base_url: None,
        upstream_model: None,
        timeout_secs: None,
        max_tokens_cap: None,
        lazy: false,
        vram_mb: None,
        pin: false,
        gpus: vec![],
        repo: None,
        revision: None,
        dtype: None,
        hf_token_env: None,
        adapters: vec![],
    }
}

#[test]
fn test_openai_default_base_url() {
    let backend = OpenAICompatibleBackend::new(&cfg("gpt-4o", BackendType::Openai, Some("sk-x")), "openai").unwrap();
    assert_eq!(backend.base_url, OPENAI_DEFAULT_BASE_URL);
}

#[test]
fn test_groq_default_base_url() {
    let backend = OpenAICompatibleBackend::new(&cfg("llama-x", BackendType::Groq, Some("gsk-x")), "groq").unwrap();
    assert_eq!(backend.base_url, GROQ_DEFAULT_BASE_URL);
}

#[test]
fn test_explicit_base_url_wins() {
    let mut c = cfg("gpt-4o", BackendType::Openai, Some("sk-x"));
    c.base_url = Some("https://my-proxy.test/v1".into());
    let backend = OpenAICompatibleBackend::new(&c, "openai").unwrap();
    assert_eq!(backend.base_url, "https://my-proxy.test/v1");
}

#[test]
fn test_upstream_model_defaults_to_id() {
    let backend = OpenAICompatibleBackend::new(&cfg("gpt-4o", BackendType::Openai, Some("sk-x")), "openai").unwrap();
    assert_eq!(backend.upstream_model, "gpt-4o");
}

#[test]
fn test_explicit_upstream_model_used() {
    let mut c = cfg("local-id", BackendType::Groq, Some("gsk-x"));
    c.upstream_model = Some("llama-3.3-70b-versatile".into());
    let backend = OpenAICompatibleBackend::new(&c, "groq").unwrap();
    assert_eq!(backend.upstream_model, "llama-3.3-70b-versatile");
}

#[test]
fn test_missing_api_key_errors() {
    let result = OpenAICompatibleBackend::new(&cfg("gpt-4o", BackendType::Openai, None), "openai");
    assert!(matches!(result, Err(EngineError::ModelLoadFailed(_))));
}

#[test]
fn openai_test_endpoint_handles_trailing_slash() {
    let mut c = cfg("gpt-4o", BackendType::Openai, Some("sk-x"));
    c.base_url = Some("https://api.openai.com/v1/".into());
    let backend = OpenAICompatibleBackend::new(&c, "openai").unwrap();
    assert_eq!(backend.endpoint(), "https://api.openai.com/v1/chat/completions");
}

#[test]
fn openai_test_provider_field() {
    let backend = OpenAICompatibleBackend::new(&cfg("gpt-4o", BackendType::Openai, Some("sk-x")), "openai").unwrap();
    assert_eq!(backend.provider(), "openai");
    assert_eq!(backend.model_info().provider, "openai");
}

#[test]
fn test_build_body_basic() {
    let backend = OpenAICompatibleBackend::new(&cfg("gpt-4o", BackendType::Openai, Some("sk-x")), "openai").unwrap();
    let req = ChatCompletionRequest {
        model: "gpt-4o".into(),
        messages: vec![ChatMessage { role: "user".into(), content: "hi".into() }],
        stream: false,
        temperature_bits: 0.7f32.to_bits(),
        top_p_bits: 0.9f32.to_bits(),
        max_tokens: 100,
        stop: vec![],
        seed: None,
    };
    let body = backend.build_body(&req, false);
    assert_eq!(body.model, "gpt-4o");
    assert_eq!(body.messages[0].role, "user");
    assert_eq!(body.messages[0].content, "hi");
    assert!(!body.stream);
    assert!(body.stop.is_none(), "empty stop should not be sent");
    assert!(body.seed.is_none(), "absent seed should not be sent");
}

#[test]
fn test_build_body_includes_optional_fields() {
    let backend = OpenAICompatibleBackend::new(&cfg("gpt-4o", BackendType::Openai, Some("sk-x")), "openai").unwrap();
    let req = ChatCompletionRequest {
        model: "gpt-4o".into(),
        messages: vec![],
        stream: true,
        temperature_bits: 0.5f32.to_bits(),
        top_p_bits: 0.95f32.to_bits(),
        max_tokens: 256,
        stop: vec!["END".into()],
        seed: Some(42),
    };
    let body = backend.build_body(&req, true);
    assert!(body.stream);
    assert_eq!(body.stop.as_ref().unwrap()[0], "END");
    assert_eq!(body.seed, Some(42));
}

#[test]
fn upstream_errors_are_classified_by_status() {
    assert!(matches!(upstream_error("openai", 429, "slow down"), EngineError::RateLimited { retry_after_secs: None }));
    match upstream_error("openai", 503, "plain text failure") {
        EngineError::UpstreamServerError { status, body } => {
            assert_eq!(status, 503);
            assert_eq!(body, "upstream openai 503 Service Unavailable: plain text failure");
        }
        other => panic!("a 5xx is an upstream server error, got {other:?}"),
    }
    match upstream_error("anthropic", 400, r#"{"error":{"message":"bad field"}}"#) {
        EngineError::InferenceFailed(m) => assert_eq!(m, "upstream anthropic 400 Bad Request: bad field"),
        other => panic!("a 4xx is a failed inference, got {other:?}"),
    }
}

#[test]
fn upstream_error_truncates_long_bodies() {
    let body = "x".repeat(300);
    match upstream_error("groq", 404, &body) {
        EngineError::InferenceFailed(m) => {
            assert_eq!(m, format!("upstream groq 404 Not Found: {}", "x".repeat(200)));
        }
        other => panic!("got {other:?}"),
    }
}

#[test]
fn request_failures_are_classified() {
    let timeout = RequestFailure { timeout: true, connect: true, request: false, text: "t".into() };
    assert!(matches!(request_error("openai", &timeout), EngineError::Timeout));
    let connect = RequestFailure { timeout: false, connect: true, request: false, text: "refused".into() };
    match request_error("openai", &connect) {
        EngineError::Network(m) => assert_eq!(m, "refused"),
        other => panic!("got {other:?}"),
    }
    let other = RequestFailure { timeout: false, connect: false, request: false, text: "decode".into() };
    match request_error("groq", &other) {
        EngineError::InferenceFailed(m) => assert_eq!(m, "upstream groq request error: decode"),
        other => panic!("got {other:?}"),
    }
}

#[test]
fn retry_after_parses_whole_seconds() {
    assert!(matches!(rate_limited(Some("5")), EngineError::RateLimited { retry_after_secs: Some(5) }));
    assert!(matches!(rate_limited(Some("+12")), EngineError::RateLimited { retry_after_secs: Some(12) }));
    assert!(matches!(rate_limited(Some("soon")), EngineError::RateLimited { retry_after_secs: None }));
    assert!(matches!(rate_limited(None), EngineError::RateLimited { retry_after_secs: None }));
    assert_eq!(parse_u64("18446744073709551615"), Some(u64::MAX));
    assert_eq!(parse_u64("18446744073709551616"), None);
    assert_eq!(parse_u64(""), None);
    assert_eq!(parse_u64("+"), None);
    assert_eq!(parse_u64("007"), Some(7));
}

#[test]
fn done_sentinel_is_recognised() {
    assert!(is_done_event("[DONE]"));
    assert!(!is_done_event("{\"id\":1}"));
}

#[test]
fn request_defaults_match_the_documented_values() {
    assert_eq!(f32::from_bits(flarion::api_types::default_temperature()), 0.7f32);
    assert_eq!(f32::from_bits(flarion::api_types::default_top_p()), 0.9f32);
    assert_eq!(flarion::api_types::default_max_tokens(), 2048);
}

#[test]
fn relabel_replaces_only_the_model_name() {
    let backend = OpenAICompatibleBackend::new(&cfg("local-name", BackendType::Openai, Some("sk-x")), "openai").unwrap();
    let mut resp = ChatCompletionResponse {
        id: "chatcmpl-1".into(),
        object: "chat.completion".into(),
        created: 42,
        model: "gpt-4o-2024".into(),
        choices: vec![ChatCompletionChoice {
            index: 0,
            message: ChatMessage { role: "assistant".into(), content: "hi".into() },
            finish_reason: "stop".into(),
        }],
        usage: Usage { prompt_tokens: 3, completion_tokens: 1, total_tokens: 4 },
    };
    backend.relabel_response(&mut resp);
    assert_eq!(resp.model, "local-name");
    assert_eq!(resp.id, "chatcmpl-1");
    assert_eq!(resp.created, 42);
    assert_eq!(resp.choices[0].message.content, "hi");
    assert_eq!(resp.usage.total_tokens, 4);

    let mut chunk = ChatCompletionChunk {
        id: "chatcmpl-2".into(),
        object: "chat.completion.chunk".into(),
        created: 7,
        model: "gpt-4o-2024".into(),
        choices: vec![ChatCompletionChunkChoice {
            index: 0,
            delta: ChatDelta { role: None, content: Some("tok".into()) },
            finish_reason: None,
        }],
    };
    backend.relabel_chunk(&mut chunk);
    assert_eq!(chunk.model, "local-name");
    assert_eq!(chunk.id, "chatcmpl-2");
    assert_eq!(chunk.choices[0].delta.content.as_deref(), Some("tok"));
}

#[test]
fn failed_replies_are_classified_with_the_retry_delay() {
    assert!(matches!(
        reply_error("anthropic", 429, Some("7"), "ignored"),
        EngineError::RateLimited { retry_after_secs: Some(7) }
    ));
    assert!(matches!(
        reply_error("openai", 429, Some("later"), ""),
        EngineError::RateLimited { retry_after_secs: None }
    ));
    assert!(matches!(reply_error("openai", 429, None, ""), EngineError::RateLimited { retry_after_secs: None }));
    assert!(matches!(reply_error("groq", 502, Some("7"), "down"), EngineError::UpstreamServerError { status: 502, .. }));
    match reply_error("openai", 401, None, "no key") {
        EngineError::InferenceFailed(m) => assert_eq!(m, "upstream openai 401 Unauthorized: no key"),
        other => panic!("got {other:?}"),
    }
    assert!(check_reply("openai", 200, None, "").is_ok());
    assert!(check_reply("openai", 204, Some("3"), "").is_ok());
    assert!(matches!(
        check_reply("openai", 429, Some("3"), ""),
        Err(EngineError::RateLimited { retry_after_secs: Some(3) })
    ));
    assert!(matches!(check_reply("openai", 302, None, ""), Err(EngineError::InferenceFailed(_))));
}

#[test]
fn backends_classify_their_replies_under_their_provider() {
    let groq = OpenAICompatibleBackend::new(&cfg("llama", BackendType::Groq, Some("k")), "groq").unwrap();
    match groq.check_reply(500, None, "boom") {
        Err(EngineError::UpstreamServerError { status, body }) => {
            assert_eq!(status, 500);
            assert_eq!(body, "upstream groq 500 Internal Server Error: boom");
        }
        other => panic!("got {other:?}"),
    }
    assert!(matches!(groq.check_reply(429, Some("9"), ""), Err(EngineError::RateLimited { retry_after_secs: Some(9) })));
}
