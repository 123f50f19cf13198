use flarion::error::{format_model_not_found, is_retryable, ApiError, EngineError};

#[test]
fn test_engine_error_converts_to_api_error() {
    let engine_err = EngineError::ModelNotFound("test-model".into());
    let api_err: ApiError = engine_err.into();
    assert!(matches!(api_err, ApiError::ModelNotFound { .. }));

    let engine_err = EngineError::ContextLengthExceeded { requested: 8000, max: 4096 };
    let api_err: ApiError = engine_err.into();
    assert!(matches!(api_err, ApiError::BadRequest(_)));
}

#[test]
fn test_is_retryable_true_for_retryable_variants() {
    assert!(is_retryable(&EngineError::Timeout));
    assert!(is_retryable(&EngineError::Network("conn reset".into())));
    assert!(is_retryable(&EngineError::UpstreamServerError { status: 503, body: "".into() }));
    assert!(is_retryable(&EngineError::RateLimited { retry_after_secs: None }));
}

#[test]
fn test_is_retryable_false_for_terminal_variants() {
    assert!(!is_retryable(&EngineError::InferenceFailed("x".into())));
    assert!(!is_retryable(&EngineError::ModelNotFound("x".into())));
    assert!(!is_retryable(&EngineError::ModelLoadFailed("x".into())));
    assert!(!is_retryable(&EngineError::ContextLengthExceeded { requested: 10, max: 4 }));
}

#[test]
fn test_backend_poisoned_is_not_retryable() {
    assert!(!is_retryable(&EngineError::BackendPoisoned));
}

#[test]
fn test_backend_draining_is_not_retryable() {
    assert!(!is_retryable(&EngineError::BackendDraining));
}

#[test]
fn test_model_unavailable_is_not_retryable() {
    assert!(!is_retryable(&EngineError::ModelUnavailable("budget".into())));
}

#[test]
fn bad_request_answers_400_with_its_codes() {
    let err = ApiError::BadRequest("missing messages".into());
    assert_eq!(err.status_code(), 400);
    assert_eq!(err.error_type(), "invalid_request_error");
    assert_eq!(err.code(), "bad_request");
    assert_eq!(err.message(), "invalid request: missing messages");
}

#[test]
fn model_not_found_answers_404_and_lists_models() {
    let err = ApiError::ModelNotFound {
        requested: "gpt-4o".to_string(),
        available: vec!["qwen3-8b".to_string(), "codellama-13b".to_string()],
    };
    assert_eq!(err.status_code(), 404);
    assert_eq!(err.code(), "model_not_found");
    assert_eq!(err.message(), "model 'gpt-4o' not found. available models: qwen3-8b, codellama-13b");
    let none = ApiError::ModelNotFound { requested: "x".to_string(), available: Vec::new() };
    assert_eq!(none.message(), "model 'x' not found; no models loaded");
}

#[test]
fn format_model_not_found_joins_with_commas() {
    assert_eq!(format_model_not_found("m", &vec!["a".to_string()]), "model 'm' not found. available models: a");
}

#[test]
fn internal_and_upstream_errors_answer_5xx() {
    let internal: ApiError = EngineError::InferenceFailed("secret detail".into()).into();
    assert_eq!(internal.status_code(), 500);
    assert_eq!(internal.error_type(), "server_error");
    assert_eq!(internal.code(), "internal_error");
    assert_eq!(internal.message(), "internal error: internal server error");

    let timeout: ApiError = EngineError::Timeout.into();
    assert_eq!(timeout.status_code(), 502);
    assert_eq!(timeout.message(), "upstream request timed out");

    let limited: ApiError = EngineError::RateLimited { retry_after_secs: Some(5) }.into();
    assert_eq!(limited.status_code(), 502);
    assert_eq!(limited.code(), "upstream_error");
}

#[test]
fn all_backends_failed_names_only_the_route() {
    let err = EngineError::AllBackendsFailed {
        route_id: "chat".into(),
        attempts: vec![("backend-a".into(), Box::new(EngineError::Timeout))],
    };
    assert_eq!(err.message(), "all backends failed for route 'chat' (1 attempts)");
    let api: ApiError = err.into();
    assert_eq!(api.status_code(), 502);
    let msg = api.message();
    assert!(msg.contains("chat"));
    assert!(!msg.contains("backend-a"));
}

#[test]
fn unavailable_backends_answer_503() {
    let poisoned: ApiError = EngineError::BackendPoisoned.into();
    assert_eq!(poisoned.status_code(), 503);
    assert!(poisoned.message().contains("model backend temporarily unavailable"));
    let draining: ApiError = EngineError::BackendDraining.into();
    assert!(draining.message().contains("server shutting down"));
    let unavailable: ApiError = EngineError::ModelUnavailable("budget exceeded".into()).into();
    assert!(unavailable.message().contains("model temporarily unavailable"));
    assert!(!unavailable.message().contains("budget exceeded"));
}

#[test]
fn engine_messages_match_their_display() {
    assert_eq!(EngineError::UpstreamServerError { status: 503, body: "down".into() }.message(), "upstream server error (503): down");
    assert_eq!(EngineError::RateLimited { retry_after_secs: Some(7) }.message(), "rate limited (retry after 7s)");
    assert_eq!(EngineError::RateLimited { retry_after_secs: None }.message(), "rate limited");
    assert_eq!(
        EngineError::ContextLengthExceeded { requested: 8000, max: 4096 }.message(),
        "context length exceeded: requested 8000, max 4096"
    );
    let api: ApiError = EngineError::ContextLengthExceeded { requested: 8000, max: 4096 }.into();
    assert_eq!(api.message(), "invalid request: context length exceeded: requested 8000, max 4096");
    let upstream: ApiError = EngineError::UpstreamServerError { status: 503, body: "internal".into() }.into();
    assert_eq!(upstream.message(), "upstream error 503");
}

#[test]
fn model_unavailable_asks_clients_to_retry_after_five_seconds() {
    let e = flarion::error::ApiError::from(flarion::error::EngineError::ModelUnavailable("budget spent".into()));
    assert_eq!(e.status_code(), 503);
    assert_eq!(e.retry_after_secs(), Some(5));
    let draining = flarion::error::ApiError::from(flarion::error::EngineError::BackendDraining);
    assert_eq!(draining.status_code(), 503);
    assert_eq!(draining.retry_after_secs(), None);
    let gateway = flarion::error::ApiError::from(flarion::error::EngineError::Timeout);
    assert_eq!(gateway.retry_after_secs(), None);
}
