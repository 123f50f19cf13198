use flarion::admin::{RecentRollup, ServerInfo, Status};
use flarion::cli::{is_fresh, CacheSlot, DashboardCache, CACHE_TTL_MS};
use flarion::endpoint::{admin_url, classify_answer, ClientError, Endpoint};
use flarion::prompt::{completion_response, final_chunk, role_chunk, token_chunk, FinishReason, GenerationResult};

fn status(version: &str) -> Status {
    Status {
        server: ServerInfo {
            version: version.into(),
            git_sha: None,
            uptime_s: 0,
            bind: "b".into(),
            features: vec![],
        },
        gpus: vec![],
        models: vec![],
        in_flight_total: 0,
        recent: RecentRollup { requests_last_60s: 0, errors_last_60s: 0, ttft_p50_ms: None, ttft_p95_ms: None },
    }
}

#[test]
fn two_status_calls_within_ttl_hit_stub_once() {
    let mut c = DashboardCache::new();
    assert!(c.status.fresh(0).is_none());
    c.status.store(status("x"), 1000);
    assert_eq!(c.status.fresh(1500).unwrap().server.version, "x");
    assert!(c.status.fresh(1000 + CACHE_TTL_MS).is_none());
}

#[test]
fn mutation_invalidates_status_cache() {
    let mut c = DashboardCache::new();
    c.status.store(status("x"), 10);
    c.routes.store(vec![], 10);
    c.after_mutation(true);
    assert!(c.status.fresh(11).is_none());
    assert!(c.routes.fresh(11).is_some());
}

#[test]
fn failed_mutation_does_not_invalidate() {
    let mut c = DashboardCache::new();
    c.status.store(status("x"), 10);
    c.after_mutation(false);
    assert!(c.status.fresh(11).is_some());
}

#[test]
fn gpus_and_models_are_independently_cached() {
    let mut c = DashboardCache::new();
    c.gpus.store(vec![], 10);
    assert!(c.gpus.fresh(20).is_some());
    assert!(c.models.fresh(20).is_none());
    c.models.store(vec![], 20);
    assert!(c.models.fresh(20).is_some());
    let mut slot: CacheSlot<u32> = CacheSlot::empty();
    slot.store(7, 5);
    assert_eq!(slot.fresh(4), Some(&7));
    slot.clear();
    assert_eq!(slot.fresh(5), None);
    assert!(is_fresh(100, 50));
}

#[test]
fn answers_map_to_client_errors() {
    assert!(classify_answer(200, "/p", String::new()).is_none());
    assert!(classify_answer(204, "/p", String::new()).is_none());
    assert!(matches!(classify_answer(401, "/p", String::new()), Some(ClientError::Unauthorized)));
    assert!(matches!(classify_answer(404, "/v1/x", String::new()), Some(ClientError::NotFound { ref resource }) if resource == "/v1/x"));
    assert!(matches!(classify_answer(409, "/p", "busy".into()), Some(ClientError::Conflict { ref reason }) if reason == "busy"));
    assert!(matches!(classify_answer(500, "/p", "oops".into()), Some(ClientError::Server { status: 500, ref body }) if body == "oops"));
    let ep = Endpoint { name: "t".into(), url: "http://h:1//".into(), api_key: None };
    assert_eq!(admin_url(&ep, "/v1/admin/version"), "http://h:1/v1/admin/version");
}

#[test]
fn generation_answers() {
    let r = GenerationResult {
        text: "hi".into(),
        prompt_tokens: 3,
        completion_tokens: 2,
        finish_reason: FinishReason::Stop,
        canceled: false,
    };
    let fin = final_chunk("id", "m", 7, &r).unwrap();
    assert_eq!(fin.choices[0].finish_reason.as_deref(), Some("stop"));
    let resp = completion_response("id".into(), 7, "m".into(), r);
    assert_eq!(resp.object, "chat.completion");
    assert_eq!(resp.choices[0].message.content, "hi");
    assert_eq!(resp.choices[0].finish_reason, "stop");
    assert_eq!(resp.usage.total_tokens, 5);
    let role = role_chunk("id", "m", 7);
    assert_eq!(role.choices[0].delta.role.as_deref(), Some("assistant"));
    let tok = token_chunk("id", "m", 7, "x");
    assert_eq!(tok.choices[0].delta.content.as_deref(), Some("x"));
    let canceled = GenerationResult {
        text: String::new(),
        prompt_tokens: 1,
        completion_tokens: 0,
        finish_reason: FinishReason::Length,
        canceled: true,
    };
    assert!(final_chunk("id", "m", 7, &canceled).is_none());
}

#[test]
fn mutation_reply_passes_the_reply_on() {
    let mut c = DashboardCache::new();
    c.status.store(status("x"), 10);
    c.routes.store(vec![], 10);
    let failed: Result<(), &str> = c.mutation_reply(Err("busy"));
    assert_eq!(failed, Err("busy"));
    assert!(c.status.fresh(11).is_some());
    let ok: Result<u32, &str> = c.mutation_reply(Ok(3));
    assert_eq!(ok, Ok(3));
    assert!(c.status.fresh(11).is_none());
    assert!(c.routes.fresh(11).is_some());
}
