use flarion::config::{BackendType, ModelConfig};
use flarion::error::EngineError;
use flarion::lifecycle::{
    no_eviction_candidates, no_evictor, unknown_gpu, EvictionRound, LoadPhase, LoadStep, LocalModel, UnloadStep,
};
use flarion::scheduling::{Placement, ResolvedPlacement};

fn test_config() -> ModelConfig {
    ModelConfig {
        id: "test".into(),
        backend: BackendType::Local,
        path: Some("/tmp/x.gguf".into()),
        context_size: 4096,
        gpu_layers: 0,
        threads: None,
        batch_size: None,
        seed: None,
        api_key: None,
        base_url: None,
        upstream_model: None,
        timeout_secs: None,
        max_tokens_cap: None,
        lazy: false,
        vram_mb: None,
        pin: false,
        gpus: vec![],
        repo: None,
        revision: None,
        dtype: None,
        hf_token_env: None,
        adapters: Vec::new(),
    }
}

fn loaded(cfg: &ModelConfig) -> LocalModel {
    let mut m = LocalModel::new(cfg).unwrap();
    assert!(matches!(m.begin_load(false, 1), LoadStep::Lead));
    m.load_finished(true, false, 1);
    m
}

#[test]
fn backend_rejects_while_poisoned() {
    let mut m = LocalModel::new(&test_config()).unwrap();
    m.poisoned = true;
    assert!(matches!(m.begin_load(true, 5), LoadStep::Refused(EngineError::BackendPoisoned)));
    assert!(matches!(m.worker_ready(), Err(EngineError::BackendPoisoned)));
}

#[test]
fn backend_rejects_while_draining() {
    let mut m = LocalModel::new(&test_config()).unwrap();
    m.draining = true;
    assert!(matches!(m.begin_load(true, 5), LoadStep::Refused(EngineError::BackendDraining)));
}

#[test]
fn backend_new_rejects_missing_path() {
    let mut cfg = test_config();
    cfg.path = None;
    match LocalModel::new(&cfg) {
        Err(EngineError::ModelLoadFailed(m)) => assert_eq!(
            m,
            "local backend 'test' has no path (config validation should have caught this)"
        ),
        Err(other) => panic!("expected ModelLoadFailed, got {other:?}"),
        Ok(_) => panic!("expected error, got Ok"),
    }
}

#[test]
fn backend_model_info_reflects_poisoned() {
    let mut m = loaded(&test_config());
    assert!(m.model_info().loaded);
    m.poisoned = true;
    assert!(!m.model_info().loaded);
    assert_eq!(m.model_info().provider, "local");
}

#[test]
fn lazy_backend_does_not_load_on_new() {
    let mut cfg = test_config();
    cfg.lazy = true;
    let m = LocalModel::new(&cfg).unwrap();
    assert_eq!(m.phase, LoadPhase::Unloaded);
}

#[test]
fn ensure_loaded_returns_draining_error() {
    let mut m = LocalModel::new(&test_config()).unwrap();
    m.draining = true;
    assert!(matches!(m.begin_load(false, 0), LoadStep::Refused(EngineError::BackendDraining)));
}

#[test]
fn ensure_loaded_returns_poisoned_error() {
    let mut m = LocalModel::new(&test_config()).unwrap();
    m.poisoned = true;
    m.draining = true;
    assert!(matches!(m.begin_load(false, 0), LoadStep::Refused(EngineError::BackendPoisoned)));
}

#[test]
fn backend_state_starts_unloaded() {
    let m = LocalModel::new(&test_config()).unwrap();
    assert_eq!(m.phase, LoadPhase::Unloaded);
    assert_eq!(m.in_flight, 0);
    assert!(matches!(m.worker_ready(), Err(EngineError::InferenceFailed(_))));
}

#[test]
fn in_flight_guard_increments_and_decrements() {
    let mut m = loaded(&test_config());
    assert_eq!(m.in_flight, 0);
    assert!(matches!(m.begin_load(true, 7), LoadStep::Ready));
    assert_eq!(m.in_flight, 1);
    m.request_done();
    assert_eq!(m.in_flight, 0);
}

#[test]
fn ensure_loaded_for_request_touches_last_used() {
    let mut m = loaded(&test_config());
    let before = m.last_used_ms;
    assert!(matches!(m.begin_load(true, before + 2), LoadStep::Ready));
    assert!(m.last_used_ms > before);
}

#[test]
fn second_caller_waits_for_the_leader() {
    let mut m = LocalModel::new(&test_config()).unwrap();
    assert!(matches!(m.begin_load(true, 1), LoadStep::Lead));
    assert_eq!(m.in_flight, 1);
    assert!(matches!(m.begin_load(true, 1), LoadStep::Wait));
    m.load_finished(false, true, 2);
    assert_eq!(m.phase, LoadPhase::Unloaded);
    assert_eq!(m.in_flight, 0);
}

#[test]
fn unload_when_unloaded_is_noop() {
    let mut m = LocalModel::new(&test_config()).unwrap();
    assert!(matches!(m.begin_unload(), UnloadStep::AlreadyUnloaded));
    assert_eq!(m.phase, LoadPhase::Unloaded);
}

#[test]
fn unload_when_busy_returns_backend_busy() {
    let mut m = loaded(&test_config());
    m.in_flight = 1;
    assert!(matches!(m.begin_unload(), UnloadStep::Busy));
    assert_eq!(m.phase, LoadPhase::Loaded);
}

#[test]
fn backend_constructs_with_scheduler_and_auto_placement() {
    let m = LocalModel::new(&test_config()).unwrap();
    assert!(matches!(m.placement, ResolvedPlacement::Auto));
}

#[test]
fn backend_constructs_with_single_device_placement() {
    let mut cfg = test_config();
    cfg.gpus = vec![1];
    let m = LocalModel::new(&cfg).unwrap();
    match &m.placement {
        ResolvedPlacement::Resolved(Placement::SingleDevice(n)) => assert_eq!(*n, 1),
        _ => panic!("expected a single device"),
    }
}

#[test]
fn backend_resolves_auto_placement_to_most_free_device() {
    let m = LocalModel::new(&test_config()).unwrap();
    match m.placement_for_load(Some(1)) {
        Ok(Placement::SingleDevice(g)) => assert_eq!(g, 1),
        _ => panic!("expected device 1"),
    }
    match m.placement_for_load(None) {
        Err(EngineError::ModelUnavailable(msg)) => assert_eq!(msg, "auto-placement: no devices configured"),
        _ => panic!("expected no device"),
    }
}

#[test]
fn unload_of_auto_placed_model_resets_placement_to_auto() {
    let mut cfg = test_config();
    cfg.id = "auto".into();
    cfg.lazy = true;
    let mut m = LocalModel::new(&cfg).unwrap();
    let chosen = m.placement_for_load(Some(0)).unwrap();
    m.commit_placement(chosen);
    assert!(matches!(m.placement, ResolvedPlacement::Resolved(_)));
    assert!(matches!(m.begin_load(false, 1), LoadStep::Lead));
    m.load_finished(true, false, 1);
    assert!(matches!(m.begin_unload(), UnloadStep::StopWorker));
    assert_eq!(m.after_unload(), vec![0]);
    assert!(matches!(m.placement, ResolvedPlacement::Auto));
}

#[test]
fn unload_of_explicit_model_does_not_reset_placement() {
    let mut cfg = test_config();
    cfg.id = "pinned_gpu_1".into();
    cfg.gpus = vec![1];
    cfg.lazy = true;
    let mut m = loaded(&cfg);
    assert!(matches!(m.begin_unload(), UnloadStep::StopWorker));
    assert_eq!(m.after_unload(), vec![1]);
    match &m.placement {
        ResolvedPlacement::Resolved(Placement::SingleDevice(n)) => assert_eq!(*n, 1),
        _ => panic!("expected device 1"),
    }
}

#[test]
fn shutdown_drains_and_stops_a_loaded_worker() {
    let mut m = loaded(&test_config());
    assert!(m.begin_shutdown());
    assert!(m.draining);
    assert_eq!(m.phase, LoadPhase::Unloaded);
    assert!(!m.begin_shutdown());
    assert!(matches!(m.begin_load(false, 0), LoadStep::Refused(EngineError::BackendDraining)));
}

#[test]
fn eviction_round_outcomes() {
    let mut round = EvictionRound::start(2);
    assert!(round.unloaded(Err(EngineError::BackendBusy)).is_none());
    match round.finish() {
        Err(EngineError::ModelUnavailable(m)) => assert_eq!(m, "all eviction candidates busy on gpu 2; retry shortly"),
        _ => panic!("expected a refusal"),
    }
    assert!(round.unloaded(Ok(())).is_none());
    assert!(round.finish().is_ok());
    assert!(matches!(round.unloaded(Err(EngineError::Timeout)), Some(EngineError::Timeout)));
    assert_eq!(no_eviction_candidates(3).message(), "model unavailable: VRAM budget exceeded on gpu 3: no eviction candidates available");
    assert!(matches!(unknown_gpu(9), EngineError::InferenceFailed(ref m) if m == "placement targets unknown gpu 9"));
}

#[test]
fn eviction_needs_candidates_then_an_evictor() {
    match EvictionRound::begin(1, false, true) {
        Err(EngineError::ModelUnavailable(m)) => {
            assert_eq!(m, "VRAM budget exceeded on gpu 1: no eviction candidates available")
        }
        _ => panic!("no candidates must refuse the load"),
    }
    match EvictionRound::begin(1, true, false) {
        Err(EngineError::ModelUnavailable(m)) => assert_eq!(m, "no evictor bound; cannot free VRAM"),
        _ => panic!("no evictor must refuse the load"),
    }
    assert!(matches!(no_evictor(), EngineError::ModelUnavailable(ref m) if m == "no evictor bound; cannot free VRAM"));
    match EvictionRound::begin(1, true, true) {
        Ok(round) => {
            assert_eq!(round.gpu_id, 1);
            assert_eq!(round.evicted, 0);
        }
        Err(_) => panic!("a round starts"),
    }
}
