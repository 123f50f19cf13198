use flarion::admin::{
    find_model, format_uptime, gpus_display, render_human, vram_display, Model, RecentRollup,
    ServerInfo, Status,
};
use flarion::cli::{filter_models, is_fresh, is_yes, model_row};
use flarion::redact::{is_secret_key, redact, JsonValue};
use flarion::tracker::{default_tail, tail_len, RequestEvent, RequestTracker, TailQuery};

fn make_model(id: &str, state: &str, pinned: bool, lazy: bool) -> Model {
    Model {
        id: id.into(),
        backend: "local".into(),
        state: state.into(),
        pinned,
        lazy,
        vram_mb: None,
        gpus: vec![],
        in_flight: 0,
        last_used_s: None,
    }
}

#[test]
fn filter_loaded_keeps_only_loaded() {
    let models = vec![
        make_model("a", "loaded", false, false),
        make_model("b", "unloaded", false, false),
        make_model("c", "loaded", false, false),
    ];
    let result = filter_models(models, true, false, false);
    assert_eq!(result.len(), 2);
    assert!(result.iter().all(|m| m.state == "loaded"));
}

#[test]
fn filter_lazy_keeps_only_lazy() {
    let models = vec![
        make_model("a", "loaded", false, true),
        make_model("b", "loaded", false, false),
    ];
    let result = filter_models(models, false, true, false);
    assert_eq!(result.len(), 1);
    assert_eq!(result[0].id, "a");
}

#[test]
fn filter_pinned_keeps_only_pinned() {
    let models = vec![
        make_model("a", "loaded", true, false),
        make_model("b", "loaded", false, false),
    ];
    let result = filter_models(models, false, false, true);
    assert_eq!(result.len(), 1);
    assert_eq!(result[0].id, "a");
}

#[test]
fn filters_combine_and_keep_order() {
    let models = vec![
        make_model("a", "loaded", true, true),
        make_model("b", "unloaded", true, true),
        make_model("c", "loaded", true, true),
        make_model("d", "loaded", false, true),
    ];
    let result = filter_models(models, true, true, true);
    let ids: Vec<&str> = result.iter().map(|m| m.id.as_str()).collect();
    assert_eq!(ids, vec!["a", "c"]);
    let none = filter_models(vec![make_model("x", "loaded", false, false)], false, false, false);
    assert_eq!(none.len(), 1);
}

#[test]
fn show_find_by_id_succeeds() {
    let models = vec![
        make_model("llama-3", "loaded", false, false),
        make_model("mistral", "unloaded", false, false),
    ];
    let found = find_model(&models, "llama-3");
    assert!(found.is_some());
    assert_eq!(found.unwrap().id, "llama-3");
}

#[test]
fn show_find_by_id_missing_returns_none() {
    let models = vec![make_model("llama-3", "loaded", false, false)];
    let found = find_model(&models, "does-not-exist");
    assert!(found.is_none());
}

#[test]
fn vram_mb_formats_none_as_dash() {
    let m = make_model("x", "loaded", false, false);
    assert_eq!(vram_display(&m), "\u{2014}");
}

#[test]
fn vram_mb_formats_some_as_number() {
    let mut m = make_model("x", "loaded", false, false);
    m.vram_mb = Some(4096);
    assert_eq!(vram_display(&m), "4096");
}

#[test]
fn gpus_formats_empty_as_dash() {
    let m = make_model("x", "loaded", false, false);
    assert_eq!(gpus_display(&m), "\u{2014}");
}

#[test]
fn gpus_formats_multiple_as_csv() {
    let mut m = make_model("x", "loaded", false, false);
    m.gpus = vec![0, 1, 3];
    assert_eq!(gpus_display(&m), "0,1,3");
}

#[test]
fn model_row_lays_out_columns() {
    let mut m = make_model("llama", "loaded", true, false);
    m.in_flight = 3;
    let row = model_row(&m);
    assert_eq!(
        row,
        format!("{:<24}  {:<10} {:<10} pin=y  in-flight=3", "llama", "local", "loaded")
    );
}

fn sample_status() -> Status {
    Status {
        server: ServerInfo {
            version: "0.9.0".into(),
            git_sha: None,
            uptime_s: 3720,
            bind: "127.0.0.1:8080".into(),
            features: vec!["cuda".into()],
        },
        gpus: vec![],
        models: vec![],
        in_flight_total: 0,
        recent: RecentRollup {
            requests_last_60s: 0,
            errors_last_60s: 0,
            ttft_p50_ms: None,
            ttft_p95_ms: None,
        },
    }
}

#[test]
fn render_human_includes_version_and_uptime() {
    let out = render_human(&sample_status());
    assert!(out.contains("flarion 0.9.0"));
    assert!(out.contains("127.0.0.1:8080"));
    assert!(out.contains("1h 2m"));
    assert!(out.contains("cuda"));
}

#[test]
fn render_human_shows_empty_gpus_placeholder() {
    let out = render_human(&sample_status());
    assert!(out.contains("(none)"));
}

#[test]
fn format_uptime_handles_ranges() {
    assert_eq!(format_uptime(45), "45s");
    assert_eq!(format_uptime(125), "2m 5s");
    assert_eq!(format_uptime(3661), "1h 1m");
}

#[test]
fn format_uptime_edges() {
    assert_eq!(format_uptime(0), "0s");
    assert_eq!(format_uptime(59), "59s");
    assert_eq!(format_uptime(60), "1m 0s");
    assert_eq!(format_uptime(3600), "1h 0m");
}

fn obj(fields: Vec<(&str, JsonValue)>) -> JsonValue {
    JsonValue::Object(fields.into_iter().map(|(k, v)| (k.to_string(), v)).collect())
}

fn s(x: &str) -> JsonValue {
    JsonValue::Str(x.to_string())
}

#[test]
fn redacts_bare_api_key_string() {
    let mut v = obj(vec![("api_key", s("secret"))]);
    redact(&mut v);
    assert_eq!(v, obj(vec![("api_key", s("***"))]));
}

#[test]
fn preserves_env_var_reference() {
    let mut v = obj(vec![("api_key", s("${MY_KEY}"))]);
    redact(&mut v);
    assert_eq!(v, obj(vec![("api_key", s("${MY_KEY}"))]));
}

#[test]
fn redacts_inside_api_keys_array() {
    let mut v = obj(vec![(
        "api_keys",
        JsonValue::Array(vec![s("secret1"), s("${REF}"), s("secret2")]),
    )]);
    redact(&mut v);
    assert_eq!(
        v,
        obj(vec![("api_keys", JsonValue::Array(vec![s("***"), s("${REF}"), s("***")]))])
    );
}

#[test]
fn recurses_into_nested_objects() {
    let mut v = obj(vec![
        ("server", obj(vec![("api_keys", JsonValue::Array(vec![s("secret")]))])),
        (
            "models",
            JsonValue::Array(vec![obj(vec![("id", s("m")), ("api_key", s("abc"))])]),
        ),
    ]);
    redact(&mut v);
    assert_eq!(
        v,
        obj(vec![
            ("server", obj(vec![("api_keys", JsonValue::Array(vec![s("***")]))])),
            (
                "models",
                JsonValue::Array(vec![obj(vec![("id", s("m")), ("api_key", s("***"))])]),
            ),
        ])
    );
}

#[test]
fn leaves_non_secret_fields_alone() {
    let mut v = obj(vec![
        ("host", s("127.0.0.1")),
        ("port", JsonValue::Number("8080".to_string())),
    ]);
    redact(&mut v);
    assert_eq!(
        v,
        obj(vec![
            ("host", s("127.0.0.1")),
            ("port", JsonValue::Number("8080".to_string())),
        ])
    );
}

#[test]
fn secret_keys_are_exactly_three() {
    assert!(is_secret_key("api_key"));
    assert!(is_secret_key("api_keys"));
    assert!(is_secret_key("hf_token_env"));
    assert!(!is_secret_key("api"));
    assert!(!is_secret_key("host"));
}

#[test]
fn redacting_twice_changes_nothing_more() {
    let mut v = obj(vec![("api_key", s("secret")), ("hf_token_env", JsonValue::Null)]);
    redact(&mut v);
    let mut w = obj(vec![("api_key", s("***")), ("hf_token_env", JsonValue::Null)]);
    assert_eq!(v, w);
    redact(&mut w);
    assert_eq!(v, w);
}

fn started(id: &str) -> RequestEvent {
    RequestEvent::Started {
        id: id.into(),
        ts: "2026-04-18T00:00:00Z".into(),
        route: None,
        backend: "m".into(),
    }
}

fn started_id(e: &RequestEvent) -> &str {
    match e {
        RequestEvent::Started { id, .. } => id.as_str(),
        _ => panic!("not a start event"),
    }
}

#[test]
fn tail_returns_most_recent_events() {
    let mut t = RequestTracker::new(100);
    t.record(started("a"));
    t.record(started("b"));
    t.record(started("c"));
    let out = t.tail(2);
    assert_eq!(out.len(), 2);
    assert_eq!(started_id(&out[0]), "b");
    assert_eq!(started_id(&out[1]), "c");
}

#[test]
fn ring_buffer_evicts_oldest_at_capacity() {
    let mut t = RequestTracker::new(2);
    t.record(started("a"));
    t.record(started("b"));
    t.record(started("c"));
    let out = t.tail(10);
    assert_eq!(out.len(), 2);
    assert_eq!(started_id(&out[0]), "b");
    assert_eq!(started_id(&out[1]), "c");
}

#[test]
fn snapshot_all_returns_full_history() {
    let mut t = RequestTracker::new(5);
    t.record(started("a"));
    t.record(started("b"));
    let snap = t.snapshot_all();
    assert_eq!(snap.len(), 2);
}

#[test]
fn in_flight_increments_and_decrements() {
    let mut t = RequestTracker::new(10);
    t.in_flight_inc("m");
    t.in_flight_inc("m");
    assert_eq!(t.in_flight("m"), 2);
    t.in_flight_dec("m");
    assert_eq!(t.in_flight("m"), 1);
    assert_eq!(t.in_flight_total(), 1);
}

#[test]
fn in_flight_unknown_model_returns_zero() {
    let t = RequestTracker::new(10);
    assert_eq!(t.in_flight("never-seen"), 0);
}

#[test]
fn in_flight_dec_wraps_like_an_atomic_counter() {
    let mut t = RequestTracker::new(10);
    t.in_flight_dec("m");
    assert_eq!(t.in_flight("m"), usize::MAX as u64);
    t.in_flight_inc("m");
    assert_eq!(t.in_flight("m"), 0);
    t.in_flight_inc("a");
    t.in_flight_inc("b");
    assert_eq!(t.in_flight_total(), 2);
}

#[test]
fn tail_query_is_capped() {
    assert_eq!(default_tail(), 50);
    assert_eq!(tail_len(&TailQuery { tail: 10 }), 10);
    assert_eq!(tail_len(&TailQuery { tail: 5000 }), 1000);
}

#[test]
fn yes_answers_and_cache_freshness() {
    assert!(is_yes("y"));
    assert!(is_yes("  YES \n"));
    assert!(!is_yes("no"));
    assert!(!is_yes(""));
    assert!(is_fresh(1000, 1999));
    assert!(!is_fresh(1000, 2000));
}

fn info(id: &str, provider: &str, loaded: bool) -> flarion::anthropic::ModelInfo {
    flarion::anthropic::ModelInfo { id: id.into(), context_size: 4096, loaded, provider: provider.into() }
}

#[test]
fn model_snapshot_reports_state_and_in_flight() {
    let infos = vec![
        info("a", "local", true),
        info("b", "local", false),
        info("c", "groq", false),
        info("d", "anthropic", false),
    ];
    let mut t = RequestTracker::new(4);
    t.in_flight_inc("b");
    t.in_flight_inc("b");
    let snap = flarion::admin::model_snapshot(&infos, &t);
    let states: Vec<&str> = snap.iter().map(|m| m.state.as_str()).collect();
    assert_eq!(states, vec!["loaded", "unloaded", "remote", "remote"]);
    assert_eq!(snap[1].in_flight, 2);
    assert_eq!(snap[0].in_flight, 0);
    assert_eq!(snap[2].backend, "groq");
    assert!(!snap[0].pinned && !snap[0].lazy && snap[0].gpus.is_empty());
}

#[test]
fn gpu_entry_converts_bytes_to_mb() {
    let g = flarion::admin::gpu_entry(1, "card".into(), 8 * 1_048_576 + 5, 3 * 1_048_576);
    assert_eq!(g.budget_mb, 8);
    assert_eq!(g.reserved_mb, 5);
    assert_eq!(g.free_mb, 3);
    assert_eq!(g.id, 1);
    assert!(g.models.is_empty());
}

#[test]
fn snapshots_without_devices_or_routes_are_empty_or_ordered() {
    assert!(flarion::admin::route_snapshot().is_empty());
    let gpus = flarion::admin::gpu_snapshot();
    for w in gpus.windows(2) {
        assert!(w[0].id < w[1].id);
    }
}
