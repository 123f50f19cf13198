use flarion::error::EngineError;
use flarion::registry::{sort_infos_by_id, sort_texts, BackendRegistry};
use flarion::text::text_le_exec;
use flarion::testing::MockBackend;

fn mock(id: &str) -> MockBackend {
    MockBackend::succeeding(id, "hi")
}

#[test]
fn test_registry_get_returns_backend_for_known_id() {
    let mut registry = BackendRegistry::new();
    registry.insert("qwen3-8b".to_string(), mock("qwen3-8b"));
    let backend = registry.get("qwen3-8b");
    assert!(backend.is_some());
    assert_eq!(backend.unwrap().model_info().id, "qwen3-8b");
}

#[test]
fn test_registry_get_returns_none_for_unknown_id() {
    let registry: BackendRegistry<MockBackend> = BackendRegistry::new();
    assert!(registry.get("does-not-exist").is_none());
}

#[test]
fn test_registry_ids_returns_sorted_list() {
    let mut registry = BackendRegistry::new();
    registry.insert("qwen3-8b".to_string(), mock("qwen3-8b"));
    registry.insert("codellama-13b".to_string(), mock("codellama-13b"));
    let ids = registry.ids();
    assert_eq!(ids, vec!["codellama-13b", "qwen3-8b"]);
}

#[test]
fn test_registry_model_infos_returns_one_per_backend() {
    let mut registry = BackendRegistry::new();
    registry.insert("qwen3-8b".to_string(), mock("qwen3-8b"));
    registry.insert("codellama-13b".to_string(), mock("codellama-13b"));
    let infos = registry.model_infos(|b: &MockBackend| b.model_info());
    assert_eq!(infos.len(), 2);
    assert_eq!(infos[0].id, "codellama-13b");
    assert_eq!(infos[1].id, "qwen3-8b");
}

#[test]
fn test_empty_registry_is_empty() {
    let registry: BackendRegistry<MockBackend> = BackendRegistry::new();
    assert!(registry.is_empty());
    assert_eq!(registry.len(), 0);
}

#[test]
fn test_evictor_unload_known_model_returns_ok() {
    let mut reg = BackendRegistry::new();
    reg.insert("m".into(), mock("m"));
    assert!(reg.unload_target("m").is_ok());
}

#[test]
fn test_evictor_unload_unknown_model_returns_not_found() {
    let reg: BackendRegistry<MockBackend> = BackendRegistry::new();
    let err = reg.unload_target("nope").err().unwrap();
    assert!(matches!(err, EngineError::ModelNotFound(ref m) if m == "nope"));
}

#[test]
fn insert_replaces_the_backend_of_an_id() {
    let mut reg = BackendRegistry::new();
    reg.insert("m".into(), 1u32);
    reg.insert("n".into(), 2u32);
    reg.insert("m".into(), 3u32);
    assert_eq!(reg.len(), 2);
    assert_eq!(reg.get("m"), Some(&3));
    assert_eq!(reg.backends(), vec![&3, &2]);
}

#[test]
fn strings_sort_by_code_point() {
    let v: Vec<String> = ["b", "a", "ab", "", "B", "é", "a"].iter().map(|s| s.to_string()).collect();
    let mut expected = v.clone();
    expected.sort();
    assert_eq!(sort_texts(v), expected);
    assert!(text_le_exec("", "a"));
    assert!(text_le_exec("ab", "ab"));
    assert!(text_le_exec("Z", "a"));
    assert!(!text_le_exec("b", "ab"));
}

#[test]
fn infos_sort_by_id() {
    let infos = vec![mock("z").model_info(), mock("m").model_info(), mock("a").model_info()];
    let ids: Vec<String> = sort_infos_by_id(infos).into_iter().map(|i| i.id).collect();
    assert_eq!(ids, vec!["a", "m", "z"]);
}

#[test]
fn registry_ids_are_strictly_ascending_after_reinsert() {
    let mut registry = BackendRegistry::new();
    registry.insert("qwen3-8b".to_string(), mock("qwen3-8b"));
    registry.insert("codellama-13b".to_string(), mock("codellama-13b"));
    registry.insert("qwen3-8b".to_string(), mock("qwen3-8b"));
    assert_eq!(registry.ids(), vec!["codellama-13b", "qwen3-8b"]);
}
