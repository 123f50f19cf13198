use flarion::config::{
    AdapterConfig, BackendType, ConfigError, FlarionConfig, IpAddress, LoggingConfig, MetricsConfig, ModelConfig,
    ServerConfig, VramBudgetSetting,
};
use flarion::env_interp::{expand_string, interpolate_env};
use flarion::upstream::validate_upstream_url;
use flarion::validate::{HostFacts, PathFacts};
use flarion::vram_detect::VramInfo;

fn model(id: &str, backend: BackendType) -> ModelConfig {
    ModelConfig {
        id: id.into(),
        backend,
        path: None,
        context_size: 4096,
        gpu_layers: 99,
        threads: None,
        batch_size: None,
        seed: None,
        api_key: None,
        base_url: None,
        upstream_model: None,
        timeout_secs: None,
        max_tokens_cap: None,
        lazy: false,
        vram_mb: None,
        pin: false,
        gpus: vec![],
        repo: None,
        revision: None,
        dtype: None,
        hf_token_env: None,
        adapters: Vec::new(),
    }
}

fn local_cfg(id: &str, path: &str) -> ModelConfig {
    let mut m = model(id, BackendType::Local);
    m.path = Some(path.into());
    m
}

fn cloud_cfg(id: &str, backend: BackendType, api_key: Option<&str>) -> ModelConfig {
    let mut m = model(id, backend);
    m.api_key = api_key.map(String::from);
    m
}

fn hf_cfg_with(id: &str, apply: impl FnOnce(&mut ModelConfig)) -> ModelConfig {
    let mut m = model(id, BackendType::Hf);
    m.repo = Some("org/model".into());
    apply(&mut m);
    m
}

fn config_with_single_model(m: ModelConfig) -> FlarionConfig {
    FlarionConfig {
        server: ServerConfig::default(),
        logging: LoggingConfig::default(),
        metrics: MetricsConfig::default(),
        models: vec![m],
        routes: Vec::new(),
    }
}

/// A model file of `size_mb` MiB.
fn file_of(size_mb: u64) -> PathFacts {
    PathFacts { is_file: true, len: Ok(size_mb * 1024 * 1024) }
}

fn no_file() -> PathFacts {
    PathFacts { is_file: false, len: Err("No such file or directory (os error 2)".into()) }
}

fn facts(files: Vec<PathFacts>) -> HostFacts {
    HostFacts { model_files: files, metrics_bind_valid: true }
}

fn absent_files(n: usize) -> HostFacts {
    facts((0..n).map(|_| no_file()).collect())
}

#[test]
fn test_server_config_default_shutdown_grace_secs_is_30() {
    let cfg = ServerConfig::default();
    assert_eq!(cfg.shutdown_grace_secs, 30);
}

#[test]
fn test_server_config_default_vram_budget_is_0() {
    let cfg = ServerConfig::default();
    assert_eq!(cfg.vram_budget_mb, VramBudgetSetting::Fixed(0));
}

#[test]
fn test_resolve_fixed_passes_through() {
    let server = ServerConfig { vram_budget_mb: VramBudgetSetting::Fixed(22000), ..ServerConfig::default() };
    assert_eq!(server.resolve_vram_budget_mb().unwrap(), 22000);
}

#[test]
fn test_resolve_fixed_zero_is_disabled() {
    let server = ServerConfig::default();
    assert_eq!(server.resolve_vram_budget_mb().unwrap(), 0);
}

#[test]
fn test_resolve_headroom_exceeds_total_returns_insufficient() {
    let info = VramInfo { device_index: 0, total_mb: 1000, free_mb: 500 };
    let err = ServerConfig::resolve_vram_budget_mb_from_info(&info, 2000).unwrap_err();
    assert!(
        matches!(err, ConfigError::VramAutoDetectInsufficient { total_mb: 1000, headroom_mb: 2000 }),
        "got {err:?}"
    );
}

#[test]
fn test_resolve_subtracts_headroom_from_total() {
    let info = VramInfo { device_index: 0, total_mb: 24000, free_mb: 20000 };
    let got = ServerConfig::resolve_vram_budget_mb_from_info(&info, 2000).unwrap();
    assert_eq!(got, 22000);
}

#[test]
fn test_resolve_budgets_fixed_mode_uniform() {
    let server = ServerConfig { vram_budget_mb: VramBudgetSetting::Fixed(22000), ..ServerConfig::default() };
    let budgets = server.resolve_vram_budgets(2).unwrap();
    assert_eq!(budgets, vec![22000, 22000]);
}

#[test]
fn test_resolve_budgets_fixed_mode_single_device_default() {
    let server = ServerConfig { vram_budget_mb: VramBudgetSetting::Fixed(22000), ..ServerConfig::default() };
    let budgets = server.resolve_vram_budgets(1).unwrap();
    assert_eq!(budgets, vec![22000]);
}

#[test]
fn test_resolve_budgets_override_wins() {
    let server = ServerConfig {
        vram_budget_mb: VramBudgetSetting::Fixed(22000),
        vram_budget_overrides: vec![(0u32, 20000u64)],
        ..ServerConfig::default()
    };
    let budgets = server.resolve_vram_budgets(2).unwrap();
    assert_eq!(budgets, vec![20000, 22000]);
}

#[test]
fn test_resolve_budgets_rejects_override_unknown_gpu() {
    let server = ServerConfig {
        vram_budget_mb: VramBudgetSetting::Fixed(22000),
        vram_budget_overrides: vec![(3u32, 10000u64)],
        ..ServerConfig::default()
    };
    let err = server.resolve_vram_budgets(2).unwrap_err();
    assert!(matches!(err, ConfigError::VramOverrideUnknownGpu { gpu_id: 3, device_count: 2 }), "got {err:?}");
}

#[test]
fn test_resolve_budgets_fixed_zero_passes_through_per_device() {
    let server = ServerConfig::default();
    let budgets = server.resolve_vram_budgets(2).unwrap();
    assert_eq!(budgets, vec![0, 0]);
}

#[test]
fn test_validate_rejects_empty_models() {
    let mut config = FlarionConfig {
        server: ServerConfig::default(),
        models: Vec::new(),
        logging: LoggingConfig::default(),
        ..FlarionConfig::default()
    };
    let err = config.validate(&facts(vec![])).unwrap_err();
    assert!(matches!(err, ConfigError::NoModelsConfigured), "got: {err:?}");
}

#[test]
fn test_validate_rejects_missing_local_path() {
    let mut config = FlarionConfig {
        server: ServerConfig::default(),
        models: vec![local_cfg("test", "/definitely/does/not/exist.gguf")],
        logging: LoggingConfig::default(),
        ..FlarionConfig::default()
    };
    let err = config.validate(&facts(vec![no_file()])).unwrap_err();
    assert!(matches!(err, ConfigError::ModelPathMissing { .. }), "got: {err:?}");
}

#[test]
fn test_validate_local_without_path_errors() {
    let mut config = FlarionConfig {
        server: ServerConfig::default(),
        models: vec![model("test", BackendType::Local)],
        logging: LoggingConfig::default(),
        ..FlarionConfig::default()
    };
    let err = config.validate(&absent_files(1)).unwrap_err();
    assert!(matches!(err, ConfigError::LocalBackendNeedsPath { .. }), "got: {err:?}");
}

#[test]
fn test_validate_cloud_without_api_key_errors() {
    let mut config = FlarionConfig {
        server: ServerConfig::default(),
        models: vec![cloud_cfg("gpt-4o", BackendType::Openai, None)],
        logging: LoggingConfig::default(),
        ..FlarionConfig::default()
    };
    let err = config.validate(&absent_files(1)).unwrap_err();
    assert!(matches!(err, ConfigError::CloudBackendNeedsApiKey { .. }), "got: {err:?}");
}

#[test]
fn test_validate_rejects_duplicate_ids() {
    let mut config = FlarionConfig {
        models: vec![local_cfg("dup", "/m/a.gguf"), local_cfg("dup", "/m/a.gguf")],
        ..FlarionConfig::default()
    };
    let err = config.validate(&facts(vec![file_of(1), file_of(1)])).unwrap_err();
    match err {
        ConfigError::DuplicateModelId { id } => assert_eq!(id, "dup"),
        other => panic!("got: {other:?}"),
    }
}

#[test]
fn test_interpolate_env_missing_var_errors() {
    let mut config = FlarionConfig {
        server: ServerConfig::default(),
        models: vec![cloud_cfg("x", BackendType::Openai, Some("${FLARION_DEFINITELY_UNSET_VAR_XYZ}"))],
        logging: LoggingConfig::default(),
        ..FlarionConfig::default()
    };
    let env: Vec<(String, String)> = vec![("HOME".into(), "/root".into())];
    let err = interpolate_env(&mut config, &env).unwrap_err();
    match err {
        ConfigError::MissingEnvVar { ref var, ref field } => {
            assert_eq!(var, "FLARION_DEFINITELY_UNSET_VAR_XYZ");
            assert_eq!(field, "models[0].api_key");
        }
        other => panic!("expected MissingEnvVar, got: {other:?}"),
    }
    assert_eq!(config.models[0].api_key.as_deref(), Some("${FLARION_DEFINITELY_UNSET_VAR_XYZ}"));
}

#[test]
fn test_interpolate_env_no_placeholder_unchanged() {
    let mut config = FlarionConfig {
        server: ServerConfig::default(),
        models: vec![cloud_cfg("x", BackendType::Openai, Some("sk-literal-value"))],
        logging: LoggingConfig::default(),
        ..FlarionConfig::default()
    };
    interpolate_env(&mut config, &vec![]).unwrap();
    assert_eq!(config.models[0].api_key.as_deref(), Some("sk-literal-value"));
}

#[test]
fn interpolate_env_replaces_every_reference() {
    let mut server = ServerConfig::default();
    server.api_keys = vec!["key-${SUFFIX}".into(), "plain".into()];
    let mut m = cloud_cfg("x", BackendType::Openai, Some("${OPENAI_KEY}"));
    m.base_url = Some("https://${HOST}/v1".into());
    let mut config = FlarionConfig { server, models: vec![m], ..FlarionConfig::default() };
    let env: Vec<(String, String)> = vec![
        ("SUFFIX".into(), "42".into()),
        ("OPENAI_KEY".into(), "sk-real".into()),
        ("HOST".into(), "api.example.com".into()),
    ];
    interpolate_env(&mut config, &env).unwrap();
    assert_eq!(config.server.api_keys, vec!["key-42".to_string(), "plain".to_string()]);
    assert_eq!(config.models[0].api_key.as_deref(), Some("sk-real"));
    assert_eq!(config.models[0].base_url.as_deref(), Some("https://api.example.com/v1"));
}

#[test]
fn interpolate_env_reports_the_server_key_field() {
    let mut server = ServerConfig::default();
    server.api_keys = vec!["ok".into(), "${MISSING}".into()];
    let mut config = FlarionConfig { server, ..FlarionConfig::default() };
    match interpolate_env(&mut config, &vec![]).unwrap_err() {
        ConfigError::MissingEnvVar { var, field } => {
            assert_eq!(var, "MISSING");
            assert_eq!(field, "server.api_keys[1]");
        }
        other => panic!("got: {other:?}"),
    }
}

#[test]
fn expand_string_rejects_malformed_references() {
    let env: Vec<(String, String)> = vec![("A".into(), "1".into())];
    assert!(matches!(expand_string("x${A", "f", &env), Err(ConfigError::MalformedEnvRef { .. })));
    assert!(matches!(expand_string("${lower}", "f", &env), Err(ConfigError::MalformedEnvRef { .. })));
    assert!(matches!(expand_string("${}", "f", &env), Err(ConfigError::MalformedEnvRef { .. })));
    assert!(matches!(expand_string("${9A}", "f", &env), Err(ConfigError::MalformedEnvRef { .. })));
    assert_eq!(expand_string("a${A}b${A}c", "f", &env).unwrap(), "a1b1c");
    assert_eq!(expand_string("$A {A} $", "f", &env).unwrap(), "$A {A} $");
}

#[test]
fn test_binds_loopback_ipv4() {
    let s = ServerConfig { host: "127.0.0.1".into(), ..ServerConfig::default() };
    assert!(s.binds_loopback(Some(IpAddress::V4([127, 0, 0, 1]))));
}

#[test]
fn test_binds_loopback_ipv4_whole_loopback_block() {
    let s = ServerConfig { host: "127.1.2.3".into(), ..ServerConfig::default() };
    assert!(s.binds_loopback(Some(IpAddress::V4([127, 1, 2, 3]))));
}

#[test]
fn test_binds_loopback_ipv6() {
    let s = ServerConfig { host: "::1".into(), ..ServerConfig::default() };
    assert!(s.binds_loopback(Some(IpAddress::V6([0, 0, 0, 0, 0, 0, 0, 1]))));
}

#[test]
fn test_binds_loopback_hostname() {
    let s = ServerConfig { host: "localhost".into(), ..ServerConfig::default() };
    assert!(s.binds_loopback(None));
    let s = ServerConfig { host: "LOCALHOST".into(), ..ServerConfig::default() };
    assert!(s.binds_loopback(None));
}

#[test]
fn test_binds_loopback_public_bind_false() {
    let cases: Vec<(&str, Option<IpAddress>)> = vec![
        ("0.0.0.0", Some(IpAddress::V4([0, 0, 0, 0]))),
        ("::", Some(IpAddress::V6([0; 8]))),
        ("192.168.1.1", Some(IpAddress::V4([192, 168, 1, 1]))),
        ("10.0.0.1", Some(IpAddress::V4([10, 0, 0, 1]))),
        ("example.com", None),
    ];
    for (host, ip) in cases {
        let s = ServerConfig { host: host.into(), ..ServerConfig::default() };
        assert!(!s.binds_loopback(ip), "host {host} should NOT be loopback");
    }
}

#[test]
fn test_binds_loopback_empty_or_garbage() {
    for host in ["", "not-an-ip-or-hostname-[[[", "  "] {
        let s = ServerConfig { host: host.into(), ..ServerConfig::default() };
        assert!(!s.binds_loopback(None), "host '{host}' should NOT be loopback (can't parse → public assumed)");
    }
}

#[test]
fn test_ssrf_accepts_https_public() {
    assert!(validate_upstream_url("m", "https://api.openai.com/v1", false).is_ok());
    assert!(validate_upstream_url("m", "https://api.example.com", false).is_ok());
}

#[test]
fn test_ssrf_rejects_http_without_optin() {
    let err = validate_upstream_url("m", "http://api.example.com", false).unwrap_err();
    assert!(matches!(err, ConfigError::PlaintextUpstreamForbidden { .. }));
}

#[test]
fn test_ssrf_accepts_http_with_optin() {
    assert!(validate_upstream_url("m", "http://api.example.com", true).is_ok());
}

#[test]
fn test_ssrf_rejects_loopback_v4_without_optin() {
    for url in ["https://127.0.0.1/v1", "https://127.1.2.3/v1"] {
        let err = validate_upstream_url("m", url, false).unwrap_err();
        assert!(matches!(err, ConfigError::PlaintextUpstreamForbidden { .. }), "{url} should be rejected");
    }
}

#[test]
fn test_ssrf_rejects_loopback_v6() {
    let err = validate_upstream_url("m", "https://[::1]/v1", false).unwrap_err();
    assert!(matches!(err, ConfigError::PlaintextUpstreamForbidden { .. }));
}

#[test]
fn test_ssrf_rejects_link_local_v4() {
    let err = validate_upstream_url("m", "https://169.254.169.254/v1", false).unwrap_err();
    assert!(matches!(err, ConfigError::PlaintextUpstreamForbidden { .. }));
}

#[test]
fn test_ssrf_rejects_private_range_v4() {
    for url in ["https://10.0.0.1/v1", "https://172.16.0.1/v1", "https://192.168.1.1/v1"] {
        let err = validate_upstream_url("m", url, false).unwrap_err();
        assert!(matches!(err, ConfigError::PlaintextUpstreamForbidden { .. }), "{url} should be rejected");
    }
}

#[test]
fn test_ssrf_rejects_localhost_domain() {
    let err = validate_upstream_url("m", "https://localhost/v1", false).unwrap_err();
    assert!(matches!(err, ConfigError::PlaintextUpstreamForbidden { .. }));
    let err = validate_upstream_url("m", "https://LOCALHOST/v1", false).unwrap_err();
    assert!(matches!(err, ConfigError::PlaintextUpstreamForbidden { .. }));
}

#[test]
fn test_ssrf_rejects_unsupported_scheme() {
    let err = validate_upstream_url("m", "file:///etc/passwd", false).unwrap_err();
    assert!(matches!(err, ConfigError::InvalidBaseUrl { .. }));
}

#[test]
fn test_ssrf_rejects_malformed_url() {
    let err = validate_upstream_url("m", "not a url at all", false).unwrap_err();
    assert!(matches!(err, ConfigError::InvalidBaseUrl { .. }));
}

#[test]
fn test_ssrf_accepts_private_with_optin() {
    for url in ["https://127.0.0.1/v1", "http://10.0.0.1/v1", "https://localhost/v1"] {
        assert!(validate_upstream_url("m", url, true).is_ok(), "{url} should be accepted with opt-in");
    }
}

#[test]
fn test_validate_rejects_cloud_with_http_base_url() {
    let mut m = cloud_cfg("gpt-4o", BackendType::Openai, Some("sk"));
    m.base_url = Some("http://api.example.com/v1".into());
    let mut config = FlarionConfig { models: vec![m], ..FlarionConfig::default() };
    let err = config.validate(&absent_files(1)).unwrap_err();
    assert!(matches!(err, ConfigError::PlaintextUpstreamForbidden { .. }));
}

#[test]
fn test_validate_accepts_cloud_with_http_and_optin() {
    let mut m = cloud_cfg("gpt-4o", BackendType::Openai, Some("sk"));
    m.base_url = Some("http://api.example.com/v1".into());
    let mut config = FlarionConfig {
        server: ServerConfig { allow_plaintext_upstream: true, ..ServerConfig::default() },
        models: vec![m],
        ..FlarionConfig::default()
    };
    assert!(config.validate(&absent_files(1)).is_ok());
}

#[test]
fn test_validate_rejects_lazy_on_cloud_backend() {
    let mut cfg = FlarionConfig::default();
    cfg.server.host = "127.0.0.1".into();
    let mut m = cloud_cfg("cloud", BackendType::Openai, Some("k"));
    m.gpu_layers = 0;
    m.base_url = Some("https://api.openai.com/v1".into());
    m.lazy = true;
    cfg.models = vec![m];
    let err = cfg.validate(&absent_files(1)).unwrap_err();
    assert!(matches!(err, ConfigError::LazyOnlyForLocal { .. }));
}

#[test]
fn test_validate_rejects_vram_mb_on_cloud_backend() {
    let mut cfg = FlarionConfig::default();
    cfg.server.host = "127.0.0.1".into();
    let mut m = cloud_cfg("cloud", BackendType::Openai, Some("k"));
    m.gpu_layers = 0;
    m.base_url = Some("https://api.openai.com/v1".into());
    m.vram_mb = Some(1000);
    cfg.models = vec![m];
    let err = cfg.validate(&absent_files(1)).unwrap_err();
    assert!(matches!(err, ConfigError::VramMbOnlyForLocal { .. }));
}

#[test]
fn test_validate_accepts_eager_under_budget() {
    let mut cfg = FlarionConfig::default();
    cfg.server.host = "127.0.0.1".into();
    cfg.server.vram_budget_mb = VramBudgetSetting::Fixed(500);
    let mut a = local_cfg("a", "/tmp/fake-a.gguf");
    a.gpus = vec![0];
    let mut b = local_cfg("b", "/tmp/fake-b.gguf");
    b.gpus = vec![0];
    cfg.models = vec![a, b];
    // 100MB * 1.2 = 120MB each → 240MB total < 500MB budget.
    cfg.validate(&facts(vec![file_of(100), file_of(100)])).unwrap();
}

#[test]
fn test_validate_rejects_eager_budget_overflow() {
    let mut cfg = FlarionConfig::default();
    cfg.server.host = "127.0.0.1".into();
    cfg.server.vram_budget_mb = VramBudgetSetting::Fixed(500);
    let mut a = local_cfg("a", "/tmp/fake-a.gguf");
    a.gpus = vec![0];
    let mut b = local_cfg("b", "/tmp/fake-b.gguf");
    b.gpus = vec![0];
    let mut c = local_cfg("c", "/tmp/fake-c.gguf");
    c.gpus = vec![0];
    cfg.models = vec![a, b, c];
    let err = cfg.validate(&facts(vec![file_of(200), file_of(200), file_of(200)])).unwrap_err();
    match err {
        ConfigError::EagerLoadsExceedBudget { gpu_id, total_mb, budget_mb, offenders } => {
            assert_eq!(gpu_id, 0);
            assert!(total_mb > 500, "total_mb={total_mb}");
            assert_eq!(budget_mb, 500);
            assert_eq!(offenders.len(), 3);
            let ids: std::collections::HashSet<_> = offenders.iter().map(|(id, _)| id.as_str()).collect();
            assert!(ids.contains("a"));
            assert!(ids.contains("b"));
            assert!(ids.contains("c"));
        }
        other => panic!("wrong error: {other:?}"),
    }
}

#[test]
fn test_validate_lazy_excluded_from_eager_sum() {
    let mut cfg = FlarionConfig::default();
    cfg.server.host = "127.0.0.1".into();
    cfg.server.vram_budget_mb = VramBudgetSetting::Fixed(300);
    let mut eager_model = local_cfg("eager", "/tmp/fake-a.gguf");
    eager_model.gpus = vec![0];
    let mut lazy_model = local_cfg("lazy", "/tmp/fake-b.gguf");
    lazy_model.lazy = true;
    cfg.models = vec![eager_model, lazy_model];
    cfg.validate(&facts(vec![file_of(200), file_of(200)])).unwrap();
}

#[test]
fn test_validate_rejects_pin_on_cloud_backend() {
    let mut cfg = FlarionConfig::default();
    cfg.server.host = "127.0.0.1".into();
    let mut m = cloud_cfg("openai-m", BackendType::Openai, Some("k"));
    m.base_url = Some("https://api.openai.com/v1".into());
    m.upstream_model = Some("gpt-4o".into());
    m.pin = true;
    cfg.models = vec![m];
    let err = cfg.validate(&absent_files(1)).unwrap_err();
    assert!(matches!(err, ConfigError::PinOnlyForLocal { .. }), "got {err:?}");
}

#[test]
fn test_validate_rejects_pinned_over_budget() {
    let mut cfg = FlarionConfig::default();
    cfg.server.host = "127.0.0.1".into();
    cfg.server.vram_budget_mb = VramBudgetSetting::Fixed(500);
    let mut models = Vec::new();
    for (id, path) in [("a", "/tmp/a.gguf"), ("b", "/tmp/b.gguf"), ("c", "/tmp/c.gguf")] {
        let mut m = local_cfg(id, path);
        m.lazy = true;
        m.pin = true;
        m.gpus = vec![0];
        models.push(m);
    }
    cfg.models = models;
    let err = cfg.validate(&facts(vec![file_of(200), file_of(200), file_of(200)])).unwrap_err();
    match err {
        ConfigError::PinnedExceedsBudget { gpu_id, total_mb, budget_mb, offenders } => {
            assert_eq!(gpu_id, 0);
            assert!(total_mb > budget_mb, "total={total_mb} budget={budget_mb}");
            assert_eq!(budget_mb, 500);
            assert_eq!(offenders.len(), 3);
            let ids: Vec<&str> = offenders.iter().map(|(id, _)| id.as_str()).collect();
            assert!(ids.contains(&"a"));
            assert!(ids.contains(&"b"));
            assert!(ids.contains(&"c"));
        }
        other => panic!("wrong variant: {other:?}"),
    }
}

#[test]
fn test_validate_rejects_gpus_on_cloud_backend() {
    let mut cfg = FlarionConfig::default();
    cfg.server.host = "127.0.0.1".into();
    let mut m = cloud_cfg("openai-m", BackendType::Openai, Some("k"));
    m.base_url = Some("https://api.openai.com/v1".into());
    m.upstream_model = Some("gpt-4o".into());
    m.gpus = vec![0];
    cfg.models = vec![m];
    let err = cfg.validate(&absent_files(1)).unwrap_err();
    assert!(matches!(err, ConfigError::GpuIdOnCloudBackend { .. }), "got {err:?}");
}

#[test]
fn test_config_error_variants_exist_for_hf() {
    let _ = ConfigError::HfBackendNeedsPathOrRepo { id: "m".into() };
    let _ = ConfigError::HfBackendPathAndRepoExclusive { id: "m".into() };
    let _ = ConfigError::HfFieldOnNonHfBackend { id: "m".into(), field: "dtype".into() };
    let _ = ConfigError::HfAdapterNeedsPathOrRepo { id: "m".into(), index: 0 };
    let _ = ConfigError::HfAdapterPathAndRepoExclusive { id: "m".into(), index: 0 };
}

#[test]
fn test_hf_config_needs_path_or_repo() {
    let m = hf_cfg_with("m", |m| {
        m.repo = None;
        m.path = None;
    });
    let err = config_with_single_model(m).validate(&absent_files(1)).unwrap_err();
    assert!(matches!(err, ConfigError::HfBackendNeedsPathOrRepo { ref id } if id == "m"), "got: {err:?}");
}

#[test]
fn test_hf_config_rejects_both_path_and_repo() {
    let m = hf_cfg_with("m", |m| {
        m.repo = Some("org/x".into());
        m.path = Some("/tmp/x".into());
    });
    let err = config_with_single_model(m).validate(&absent_files(1)).unwrap_err();
    assert!(matches!(err, ConfigError::HfBackendPathAndRepoExclusive { ref id } if id == "m"), "got: {err:?}");
}

#[test]
fn test_hf_adapter_needs_path_or_repo() {
    let m = hf_cfg_with("m", |m| {
        m.adapters = vec![AdapterConfig { path: None, repo: None, revision: None, scale_bits: 1.0f32.to_bits() }];
    });
    let err = config_with_single_model(m).validate(&absent_files(1)).unwrap_err();
    assert!(matches!(err, ConfigError::HfAdapterNeedsPathOrRepo { ref id, index: 0 } if id == "m"), "got: {err:?}");
}

#[test]
fn test_hf_adapter_rejects_both_path_and_repo() {
    let m = hf_cfg_with("m", |m| {
        m.adapters = vec![AdapterConfig {
            path: Some("/a".into()),
            repo: Some("org/a".into()),
            revision: None,
            scale_bits: 1.0f32.to_bits(),
        }];
    });
    let err = config_with_single_model(m).validate(&absent_files(1)).unwrap_err();
    assert!(
        matches!(err, ConfigError::HfAdapterPathAndRepoExclusive { ref id, index: 0 } if id == "m"),
        "got: {err:?}"
    );
}

#[test]
fn validate_clamps_the_shutdown_grace() {
    let mut cfg = config_with_single_model(cloud_cfg("m", BackendType::Openai, Some("k")));
    cfg.server.shutdown_grace_secs = 100_000;
    cfg.validate(&absent_files(1)).unwrap();
    assert_eq!(cfg.server.shutdown_grace_secs, 3600);
}

#[test]
fn test_hf_backend_constructs_from_config() {
    let cfg = hf_cfg_with("test-hf", |_| {});
    let backend = flarion::hf::HfBackend::new(&cfg).expect("construction should succeed");
    assert_eq!(backend.model_info().id, "test-hf");
    assert_eq!(backend.provider(), "hf");
    assert!(!backend.model_info().loaded);
    assert_eq!(backend.max_tokens_cap(), 8192);
}

#[test]
fn test_hf_backend_load_returns_not_implemented() {
    let cfg = hf_cfg_with("test-hf", |_| {});
    let backend = flarion::hf::HfBackend::new(&cfg).unwrap();
    let err = backend.load().unwrap_err();
    assert!(matches!(err, flarion::error::EngineError::NotImplemented(_)), "got: {err:?}");
    assert_eq!(err.message(), "not implemented: hf backend load for 'test-hf': Wave 2 lands the loader");
}

#[test]
fn test_hf_backend_chat_completion_returns_not_implemented() {
    let cfg = hf_cfg_with("test-hf", |m| m.max_tokens_cap = Some(512));
    let backend = flarion::hf::HfBackend::new(&cfg).unwrap();
    assert_eq!(backend.max_tokens_cap(), 512);
    let req = flarion::api_types::ChatCompletionRequest {
        model: "test-hf".into(),
        messages: vec![],
        stream: false,
        temperature_bits: 0,
        top_p_bits: 0,
        max_tokens: 16,
        stop: vec![],
        seed: None,
    };
    let err = backend.chat_completion(req).err().unwrap();
    match err {
        flarion::error::EngineError::NotImplemented(m) => assert_eq!(m, "hf backend chat_completion for 'test-hf'"),
        other => panic!("got: {other:?}"),
    }
}

fn no_matchers() -> flarion::config::Matchers {
    flarion::config::Matchers {
        stream: None,
        prompt_tokens_gte: None,
        prompt_tokens_lte: None,
        message_count_gte: None,
        message_count_lte: None,
        has_system_prompt: None,
        content_regex: None,
        header_equals: vec![],
    }
}

fn rule(name: &str, matchers: flarion::config::Matchers, targets: Vec<&str>) -> flarion::config::RuleConfig {
    flarion::config::RuleConfig {
        name: name.into(),
        matchers,
        targets: targets.into_iter().map(String::from).collect(),
        first_token_timeout_ms: None,
    }
}

fn valid_route(id: &str, target: &str) -> flarion::config::RouteConfig {
    flarion::config::RouteConfig {
        id: id.into(),
        first_token_timeout_ms: None,
        rules: vec![rule("default", no_matchers(), vec![target])],
    }
}

fn with_routes(models: Vec<ModelConfig>, routes: Vec<flarion::config::RouteConfig>) -> FlarionConfig {
    FlarionConfig { models, routes, ..FlarionConfig::default() }
}

#[test]
fn test_validate_accepts_good_config() {
    let mut config = config_with_single_model(local_cfg("test", "/tmp/flarion-test-model.gguf"));
    assert!(config.validate(&facts(vec![file_of(0)])).is_ok());
}

#[test]
fn test_validate_rejects_empty_id() {
    let mut config = config_with_single_model(local_cfg("", "/tmp/flarion-test-empty.gguf"));
    let err = config.validate(&facts(vec![file_of(0)])).unwrap_err();
    assert!(matches!(err, ConfigError::EmptyModelId), "got: {err:?}");
}

#[test]
fn test_validate_cloud_with_path_errors() {
    let mut model = cloud_cfg("gpt-4o", BackendType::Openai, Some("sk-test"));
    model.path = Some("/tmp/flarion-cloud-path.gguf".into());
    let mut config = config_with_single_model(model);
    let err = config.validate(&facts(vec![file_of(0)])).unwrap_err();
    assert!(matches!(err, ConfigError::PathOnCloudBackend { .. }), "got: {err:?}");
}

#[test]
fn test_interpolate_env_replaces_var() {
    let mut c = cloud_cfg("x", BackendType::Openai, Some("${FLARION_TEST_API_KEY}"));
    c.api_key = Some("${FLARION_TEST_API_KEY}".into());
    let mut config = config_with_single_model(c);
    let env: Vec<(String, String)> = vec![("FLARION_TEST_API_KEY".into(), "actual-secret-value".into())];
    interpolate_env(&mut config, &env).unwrap();
    assert_eq!(config.models[0].api_key.as_deref(), Some("actual-secret-value"));
}

#[test]
fn test_interpolate_env_partial_string() {
    let mut c = cloud_cfg("x", BackendType::Openai, Some("sk-literal"));
    c.base_url = Some("${FLARION_TEST_HOST}/v1".into());
    let mut config = config_with_single_model(c);
    let env: Vec<(String, String)> = vec![("FLARION_TEST_HOST".into(), "https://api.example.com".into())];
    interpolate_env(&mut config, &env).unwrap();
    assert_eq!(config.models[0].base_url.as_deref(), Some("https://api.example.com/v1"));
    assert_eq!(config.models[0].api_key.as_deref(), Some("sk-literal"));
}

#[test]
fn test_interpolate_env_in_server_api_keys() {
    let mut config = config_with_single_model(local_cfg("x", "/tmp/flarion-fake.gguf"));
    config.server.host = "0.0.0.0".into();
    config.server.port = 8080;
    config.server.api_keys = vec!["${FLARION_TEST_KEY1}".into(), "literal-key".into()];
    let env: Vec<(String, String)> = vec![("FLARION_TEST_KEY1".into(), "team-key-abc".into())];
    interpolate_env(&mut config, &env).unwrap();
    assert_eq!(config.server.api_keys[0], "team-key-abc");
    assert_eq!(config.server.api_keys[1], "literal-key");
}

#[test]
fn test_validate_accepts_config_with_valid_route() {
    let mut config = with_routes(vec![local_cfg("m1", "/tmp/r.gguf")], vec![valid_route("chat", "m1")]);
    assert!(config.validate(&facts(vec![file_of(0)])).is_ok());
}

#[test]
fn test_validate_rejects_empty_route_id() {
    let mut route = valid_route("placeholder", "m1");
    route.id = "".into();
    let mut config = with_routes(vec![local_cfg("m1", "/tmp/r.gguf")], vec![route]);
    assert!(matches!(config.validate(&facts(vec![file_of(0)])), Err(ConfigError::RouteEmptyId)));
}

#[test]
fn test_validate_rejects_duplicate_route_id() {
    let mut config = with_routes(
        vec![local_cfg("m1", "/tmp/r.gguf")],
        vec![valid_route("chat", "m1"), valid_route("chat", "m1")],
    );
    assert!(matches!(config.validate(&facts(vec![file_of(0)])), Err(ConfigError::DuplicateRouteId { .. })));
}

#[test]
fn test_validate_rejects_route_id_collision_with_model() {
    let mut config = with_routes(vec![local_cfg("chat", "/tmp/r.gguf")], vec![valid_route("chat", "chat")]);
    assert!(matches!(config.validate(&facts(vec![file_of(0)])), Err(ConfigError::RouteIdCollision { .. })));
}

#[test]
fn test_validate_rejects_route_with_no_rules() {
    let route = flarion::config::RouteConfig { id: "chat".into(), first_token_timeout_ms: None, rules: vec![] };
    let mut config = with_routes(vec![local_cfg("m1", "/tmp/r.gguf")], vec![route]);
    assert!(matches!(config.validate(&facts(vec![file_of(0)])), Err(ConfigError::RouteNoRules { .. })));
}

#[test]
fn test_validate_rejects_rule_with_no_targets() {
    let route = flarion::config::RouteConfig {
        id: "chat".into(),
        first_token_timeout_ms: None,
        rules: vec![rule("default", no_matchers(), vec![])],
    };
    let mut config = with_routes(vec![local_cfg("m1", "/tmp/r.gguf")], vec![route]);
    assert!(matches!(config.validate(&facts(vec![file_of(0)])), Err(ConfigError::RuleNoTargets { .. })));
}

#[test]
fn test_validate_rejects_unknown_target() {
    let mut config = with_routes(vec![local_cfg("m1", "/tmp/r.gguf")], vec![valid_route("chat", "nonexistent")]);
    assert!(matches!(config.validate(&facts(vec![file_of(0)])), Err(ConfigError::RouteTargetUnknown { .. })));
}

#[test]
fn test_validate_rejects_route_targeting_route() {
    let mut config = with_routes(
        vec![local_cfg("m1", "/tmp/r.gguf")],
        vec![valid_route("chat", "m1"), valid_route("chat2", "chat")],
    );
    assert!(matches!(config.validate(&facts(vec![file_of(0)])), Err(ConfigError::RouteTargetsRoute { .. })));
}

#[test]
fn test_validate_rejects_route_without_catch_all() {
    let mut m = no_matchers();
    m.stream = Some(true);
    let route = flarion::config::RouteConfig {
        id: "chat".into(),
        first_token_timeout_ms: None,
        rules: vec![rule("r1", m, vec!["m1"])],
    };
    let mut config = with_routes(vec![local_cfg("m1", "/tmp/r.gguf")], vec![route]);
    assert!(matches!(config.validate(&facts(vec![file_of(0)])), Err(ConfigError::RouteNoCatchAll { .. })));
}

#[test]
fn test_validate_rejects_invalid_regex() {
    let mut m = no_matchers();
    m.content_regex = Some("(unclosed".into());
    let route = flarion::config::RouteConfig {
        id: "chat".into(),
        first_token_timeout_ms: None,
        rules: vec![rule("bad", m, vec!["m1"]), rule("catch", no_matchers(), vec!["m1"])],
    };
    let mut config = with_routes(vec![local_cfg("m1", "/tmp/r.gguf")], vec![route]);
    assert!(matches!(config.validate(&facts(vec![file_of(0)])), Err(ConfigError::InvalidRegex { .. })));
}

#[test]
fn test_validate_rejects_invalid_metrics_bind() {
    let mut config = config_with_single_model(local_cfg("m", "/tmp/mbind.gguf"));
    config.metrics.enabled = true;
    config.metrics.bind = Some("not-a-socket-addr".into());
    let host = HostFacts { model_files: vec![file_of(0)], metrics_bind_valid: false };
    let err = config.validate(&host).unwrap_err();
    assert!(matches!(err, ConfigError::InvalidMetricsBind { .. }));
}

#[test]
fn test_validate_accepts_valid_metrics_bind() {
    let mut config = config_with_single_model(local_cfg("m", "/tmp/mbind.gguf"));
    config.metrics.enabled = true;
    config.metrics.bind = Some("127.0.0.1:9091".into());
    assert!(config.validate(&facts(vec![file_of(0)])).is_ok());
}

#[test]
fn test_validate_rejects_invalid_cors_origin() {
    let mut config = config_with_single_model(local_cfg("m", "/tmp/cors.gguf"));
    config.server.cors_origins = vec!["not a url".into()];
    let err = config.validate(&facts(vec![file_of(0)])).unwrap_err();
    assert!(matches!(err, ConfigError::InvalidCorsOrigin { .. }));
}

#[test]
fn test_validate_accepts_valid_cors_origin() {
    let mut config = config_with_single_model(local_cfg("m", "/tmp/cors.gguf"));
    config.server.cors_origins = vec!["https://app.example.com".into()];
    assert!(config.validate(&facts(vec![file_of(0)])).is_ok());
}

#[test]
fn test_validate_clamps_shutdown_grace_secs_over_limit() {
    let mut config = config_with_single_model(local_cfg("m", "/tmp/clamp.gguf"));
    config.server.host = "127.0.0.1".into();
    config.server.shutdown_grace_secs = 99999;
    config.validate(&facts(vec![file_of(0)])).unwrap();
    assert_eq!(config.server.shutdown_grace_secs, 3600);
}

#[test]
fn test_validate_shutdown_grace_secs_exact_max_preserved() {
    let mut config = config_with_single_model(local_cfg("m", "/tmp/clamp.gguf"));
    config.server.host = "127.0.0.1".into();
    config.server.shutdown_grace_secs = 3600;
    config.validate(&facts(vec![file_of(0)])).unwrap();
    assert_eq!(config.server.shutdown_grace_secs, 3600);
}

#[test]
fn test_validate_rejects_duplicate_gpu_in_gpus() {
    let mut m = local_cfg("m", "/tmp/m.gguf");
    m.gpus = vec![0, 1, 0];
    let mut config = config_with_single_model(m);
    config.server.host = "127.0.0.1".into();
    let err = config.validate(&facts(vec![file_of(100)])).unwrap_err();
    assert!(matches!(err, ConfigError::GpuIdDuplicated { gpu_id: 0, .. }), "got {err:?}");
}

#[test]
fn test_validate_rejects_eager_overflow_on_single_gpu_out_of_many() {
    let mut cfg = FlarionConfig::default();
    cfg.server.host = "127.0.0.1".into();
    cfg.server.vram_budget_mb = VramBudgetSetting::Fixed(1000);
    let eager_on_gpu = |id: &str, gpu: u32| {
        let mut m = local_cfg(id, "/tmp/e.gguf");
        m.gpus = vec![gpu];
        m
    };
    cfg.models = vec![eager_on_gpu("a", 0), eager_on_gpu("b", 0), eager_on_gpu("c", 0)];
    let err = cfg.validate(&facts(vec![file_of(400), file_of(400), file_of(400)])).unwrap_err();
    match err {
        ConfigError::EagerLoadsExceedBudget { gpu_id, total_mb, budget_mb, .. } => {
            assert_eq!(gpu_id, 0);
            assert!(total_mb > budget_mb);
        }
        other => panic!("got {other:?}"),
    }
}

#[test]
fn test_validate_rejects_pinned_overflow_with_split_model() {
    let mut cfg = FlarionConfig::default();
    cfg.server.host = "127.0.0.1".into();
    cfg.server.vram_budget_mb = VramBudgetSetting::Fixed(10000);
    let pinned_lazy = |id: &str, gpus: Vec<u32>, vram: u64| {
        let mut m = local_cfg(id, "/tmp/p.gguf");
        m.lazy = true;
        m.pin = true;
        m.gpus = gpus;
        m.vram_mb = Some(vram);
        m
    };
    cfg.models = vec![pinned_lazy("split", vec![0, 1], 10000), pinned_lazy("single", vec![0], 6000)];
    let err = cfg.validate(&facts(vec![file_of(100), file_of(100)])).unwrap_err();
    match err {
        ConfigError::PinnedExceedsBudget { gpu_id, total_mb, budget_mb, .. } => {
            assert_eq!(gpu_id, 0);
            assert_eq!(total_mb, 11000);
            assert_eq!(budget_mb, 10000);
        }
        other => panic!("got {other:?}"),
    }
}

#[test]
fn public_bind_without_keys_refuses_to_start() {
    let mut s = ServerConfig::default();
    s.host = "0.0.0.0".into();
    match s.check_auth_posture(Some(IpAddress::V4([0, 0, 0, 0]))) {
        Err(ConfigError::PublicBindRequiresAuth { host }) => assert_eq!(host, "0.0.0.0"),
        other => panic!("got {other:?}"),
    }
    s.allow_unauthenticated = true;
    assert!(s.check_auth_posture(Some(IpAddress::V4([0, 0, 0, 0]))).is_ok());
    s.allow_unauthenticated = false;
    s.api_keys = vec!["k".into()];
    assert!(s.check_auth_posture(Some(IpAddress::V4([0, 0, 0, 0]))).is_ok());
    let mut l = ServerConfig::default();
    l.host = "127.0.0.1".into();
    assert!(l.check_auth_posture(Some(IpAddress::V4([127, 0, 0, 1]))).is_ok());
}

#[test]
fn cors_policy_follows_bind_and_list() {
    let mut s = ServerConfig::default();
    assert!(matches!(s.cors_policy(true), flarion::config::CorsPolicy::Permissive));
    assert!(matches!(s.cors_policy(false), flarion::config::CorsPolicy::DenyAll));
    s.cors_origins = vec!["https://app.example.com".into()];
    match s.cors_policy(false) {
        flarion::config::CorsPolicy::AllowList(v) => assert_eq!(v, vec!["https://app.example.com".to_string()]),
        _ => panic!("expected the list"),
    }
}

#[test]
fn default_adapter_scale_is_one() {
    assert_eq!(f32::from_bits(flarion::config::default_adapter_scale_bits()), 1.0f32);
}

#[test]
fn validate_with_detection_uses_the_supplied_devices() {
    let mut m = local_cfg("llama", "/models/llama.gguf");
    m.vram_mb = Some(4000);
    let mut cfg = config_with_single_model(m);
    cfg.server.vram_budget_mb = VramBudgetSetting::Auto;
    cfg.server.vram_budget_headroom_mb = 1000;
    cfg.server.shutdown_grace_secs = 90_000;
    let detected = vec![VramInfo { device_index: 0, total_mb: 8000, free_mb: 8000 }];
    let r = cfg.validate_with_detection(&facts(vec![file_of(10)]), Some(Ok(detected)));
    assert!(r.is_ok(), "{r:?}");
    assert_eq!(cfg.server.shutdown_grace_secs, 3600);
}

#[test]
fn validate_with_detection_reports_detection_failure() {
    let mut cfg = config_with_single_model(local_cfg("llama", "/models/llama.gguf"));
    cfg.server.vram_budget_mb = VramBudgetSetting::Auto;
    let r = cfg.validate_with_detection(
        &facts(vec![file_of(10)]),
        Some(Err(flarion::vram_detect::VramDetectError::NoDevices)),
    );
    assert!(matches!(
        r,
        Err(ConfigError::VramAutoDetectFailed { source: flarion::vram_detect::VramDetectError::NoDevices })
    ));
}

#[test]
fn validate_with_detection_reports_headroom_above_total() {
    let mut cfg = config_with_single_model(local_cfg("llama", "/models/llama.gguf"));
    cfg.server.vram_budget_mb = VramBudgetSetting::Auto;
    cfg.server.vram_budget_headroom_mb = 5000;
    let detected = vec![VramInfo { device_index: 0, total_mb: 4000, free_mb: 4000 }];
    let r = cfg.validate_with_detection(&facts(vec![file_of(10)]), Some(Ok(detected)));
    assert!(matches!(r, Err(ConfigError::VramAutoDetectInsufficient { total_mb: 4000, headroom_mb: 5000 })));
}

#[test]
fn flarion_config_default_is_server_defaults_without_models() {
    let c = FlarionConfig::default();
    assert!(c.models.is_empty());
    assert!(c.routes.is_empty());
    assert_eq!(c.server.host, "0.0.0.0");
    assert_eq!(c.server.port, 8080);
    assert_eq!(c.server.vram_budget_headroom_mb, 2048);
    assert!(!c.server.allow_unauthenticated);
    assert!(!c.metrics.enabled);
    assert_eq!(c.metrics.path, "/metrics");
    assert_eq!(c.logging.level, "info");
}

#[test]
fn test_cli_overrides() {
    let mut config = config_with_single_model(local_cfg("test", "/tmp/model.gguf"));
    config.server.host = "0.0.0.0".into();
    config.server.port = 8080;
    let cli = flarion::config::Cli {
        config: "flarion.toml".into(),
        host: Some("127.0.0.1".to_string()),
        port: Some(3000),
        log_level: Some("debug".to_string()),
    };
    config.apply_cli_overrides(&cli);
    assert_eq!(config.server.host, "127.0.0.1");
    assert_eq!(config.server.port, 3000);
    assert_eq!(config.logging.level, "debug");
}

#[test]
fn test_local_backend_rejects_hf_fields() {
    let mut m = local_cfg("m", "/models/m.gguf");
    m.dtype = Some(flarion::config::Dtype::Bf16);
    let err = config_with_single_model(m).validate(&facts(vec![file_of(10)])).unwrap_err();
    assert!(
        matches!(err, ConfigError::HfFieldOnNonHfBackend { ref id, ref field } if id == "m" && field == "dtype"),
        "got: {err:?}"
    );
}

#[test]
fn validate_changes_nothing_but_the_grace() {
    let mut config = config_with_single_model(local_cfg("m", "/models/m.gguf"));
    config.server.shutdown_grace_secs = 99_999;
    config.server.port = 9000;
    config.logging.level = "warn".into();
    let _ = config.validate(&facts(vec![file_of(10)]));
    assert_eq!(config.server.shutdown_grace_secs, 3600);
    assert_eq!(config.server.port, 9000);
    assert_eq!(config.logging.level, "warn");
    assert_eq!(config.server.host, "0.0.0.0");
}
