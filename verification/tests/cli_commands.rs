use flarion::admin::Gpu;
use flarion::cli::{
    event_line, gpu_line, health_line, mutation_failure_of, read_failure_of, select_gpus, status_failure_of,
    version_lines, ServerVersion,
};
use flarion::endpoint::{
    add_endpoint, list_lines, remove_endpoint, test_fail_line, test_ok_line, test_target, use_endpoint,
    ClientError, EndpointFile,
};
use flarion::repl::{chat_failure_of, oneshot_request, two_words, Repl, ReplAction};
use flarion::tracker::RequestEvent;

#[test]
fn endpoints_list_in_name_order_with_default_marked() {
    let mut f = EndpointFile::new();
    add_endpoint(&mut f, "zeta".into(), "http://z".into(), None, None, None);
    add_endpoint(&mut f, "alpha".into(), "http://a".into(), None, Some("KEY".into()), None);
    assert_eq!(f.default.as_deref(), Some("zeta"));
    assert_eq!(f.get("alpha").unwrap().api_key.as_deref(), Some("${KEY}"));
    let lines = list_lines(&f);
    assert_eq!(lines, vec![format!("    {:<12}  http://a", "alpha"), format!("  * {:<12}  http://z", "zeta")]);
    let empty = EndpointFile::new();
    assert_eq!(
        list_lines(&empty),
        vec!["  (none \u{2014} run 'flarion login <name>' or 'flarion endpoints add <name> --url <url>')".to_string()]
    );
}

#[test]
fn removing_the_default_picks_the_first_name() {
    let mut f = EndpointFile::new();
    add_endpoint(&mut f, "mid".into(), "http://m".into(), Some("k".into()), Some("IGNORED".into()), None);
    add_endpoint(&mut f, "b".into(), "http://b".into(), None, None, None);
    add_endpoint(&mut f, "c".into(), "http://c".into(), None, None, None);
    assert_eq!(f.get("mid").unwrap().api_key.as_deref(), Some("k"));
    remove_endpoint(&mut f, "mid");
    assert_eq!(f.default.as_deref(), Some("b"));
    remove_endpoint(&mut f, "c");
    assert_eq!(f.default.as_deref(), Some("b"));
    remove_endpoint(&mut f, "b");
    assert_eq!(f.default, None);
    assert_eq!(f.len(), 0);
}

#[test]
fn use_and_test_choose_an_entry() {
    let mut f = EndpointFile::new();
    assert_eq!(test_target(&f, None).err().unwrap(), "no endpoint specified and no default set");
    add_endpoint(&mut f, "home".into(), "http://h".into(), None, None, None);
    add_endpoint(&mut f, "work".into(), "http://w".into(), None, None, None);
    assert_eq!(use_endpoint(&mut f, "nope".into()), Err("no such endpoint: nope".to_string()));
    assert_eq!(use_endpoint(&mut f, "work".into()), Ok(()));
    let (name, entry) = test_target(&f, None).unwrap();
    assert_eq!(name, "work");
    assert_eq!(entry.url, "http://w");
    assert_eq!(test_target(&f, Some("x")).err().unwrap(), "no such endpoint: x");
    assert_eq!(test_ok_line("work", "0.9.0", 12), "work  OK  v0.9.0 (12 ms)");
    assert_eq!(test_fail_line("work", "boom"), "work  FAIL  boom");
}

#[test]
fn request_events_print_as_lines() {
    let started = RequestEvent::Started { id: "r1".into(), ts: "T".into(), route: None, backend: "m".into() };
    assert_eq!(event_line(&started), format!("T  started    {:<32}  backend=m", "r1"));
    let done = RequestEvent::Completed {
        id: "r1".into(),
        ts: "T".into(),
        route: None,
        matched_rule: None,
        backend: "m".into(),
        fallback_count: 0,
        status: "ok".into(),
        ttft_ms: None,
        duration_ms: 12,
        prompt_tokens: 3,
        completion_tokens: 4,
    };
    assert_eq!(event_line(&done), format!("T  completed  {:<32}  backend=m  12ms  p/c=3/4", "r1"));
    let first = RequestEvent::FirstToken { id: "r1".into(), ts: "T".into(), ttft_ms: 9 };
    assert_eq!(event_line(&first), format!("                            first-token {:<32}  ttft=9ms", "r1"));
    assert_eq!(event_line(&RequestEvent::Gap { missed: 5 }), "-- stream gap: 5 events missed --");
    let failed = RequestEvent::Failed { id: "r2".into(), ts: "T".into(), backend: "m".into(), reason: "x".into(), duration_ms: 1 };
    assert_eq!(event_line(&failed), format!("T  FAILED     {:<32}  backend=m  1ms  x", "r2"));
    let canceled = RequestEvent::Canceled { id: "r3".into(), ts: "T".into(), backend: "m".into(), duration_ms: 2 };
    assert_eq!(event_line(&canceled), format!("T  canceled   {:<32}  backend=m  2ms", "r3"));
}

fn gpu(id: u32, budget: u64, free: u64, models: Vec<&str>) -> Gpu {
    Gpu {
        id,
        name: format!("card{id}"),
        budget_mb: budget,
        reserved_mb: budget - free,
        free_mb: free,
        models: models.into_iter().map(String::from).collect(),
    }
}

#[test]
fn gpu_listing_lines_and_selection() {
    let g = gpu(0, 8000, 2000, vec!["a", "b"]);
    assert_eq!(
        gpu_line(&g),
        format!("[0] {:<28}  {:>5} / {:>5} MB free  (75% used)  models: a, b", "card0", 2000, 8000)
    );
    assert_eq!(
        gpu_line(&gpu(1, 0, 0, vec![])),
        format!("[1] {:<28}  {:>5} / {:>5} MB free  (0% used)  models: \u{2014}", "card1", 0, 0)
    );
    let all = vec![gpu(0, 1, 1, vec![]), gpu(1, 1, 1, vec![]), gpu(2, 1, 1, vec![])];
    assert_eq!(select_gpus(all, Some(1)).iter().map(|g| g.id).collect::<Vec<_>>(), vec![1]);
    let all = vec![gpu(0, 1, 1, vec![]), gpu(1, 1, 1, vec![])];
    assert_eq!(select_gpus(all, None).len(), 2);
    assert!(select_gpus(vec![gpu(0, 1, 1, vec![])], Some(7)).is_empty());
}

#[test]
fn failures_map_to_messages_and_exit_codes() {
    let unreachable = ClientError::Unreachable { url: "http://x".into(), reason: "refused".into() };
    assert_eq!(read_failure_of(&unreachable), ("flarion: can't reach http://x".to_string(), 3));
    assert_eq!(read_failure_of(&ClientError::Unauthorized), ("flarion: unauthorized".to_string(), 2));
    assert_eq!(read_failure_of(&ClientError::Timeout), ("flarion: request timed out".to_string(), 1));
    let conflict = ClientError::Conflict { reason: "pinned".into() };
    assert_eq!(mutation_failure_of("m", "unload", &conflict), ("flarion: can't unload 'm': pinned".to_string(), 5));
    let missing = ClientError::NotFound { resource: "m".into() };
    assert_eq!(mutation_failure_of("m", "load", &missing), ("flarion: no such model: m".to_string(), 4));
    assert_eq!(mutation_failure_of("m", "pin", &ClientError::Timeout), ("flarion: pin failed: request timed out".to_string(), 1));
    assert_eq!(chat_failure_of(&missing), ("flarion: model not found".to_string(), 4));
    assert_eq!(
        status_failure_of(&ClientError::Unauthorized, "home"),
        ("flarion: unauthorized \u{2014} check api key for endpoint 'home'".to_string(), 2)
    );
}

#[test]
fn health_and_version_lines() {
    assert_eq!(health_line(Some("ok"), 12), "OK  status=ok  (12ms)");
    assert_eq!(health_line(None, 3), "OK  status=?  (3ms)");
    let lines = version_lines("0.9.0", &vec![], &None);
    assert_eq!(
        lines,
        vec![
            "\u{25b2} FLARION 0.9.0".to_string(),
            "  client  0.9.0  (\u{2014})".to_string(),
            "  server  unreachable (no running server found)".to_string(),
        ]
    );
    let server = ServerVersion {
        version: "0.9.1".into(),
        endpoint_name: "home".into(),
        endpoint_url: "http://h".into(),
        features: vec!["cuda".into(), "hf_cuda".into()],
    };
    let lines = version_lines("0.9.0", &vec!["cuda".to_string()], &Some(server));
    assert_eq!(lines[1], "  client  0.9.0  (cuda)");
    assert_eq!(lines[2], "  server  0.9.1  @ home (http://h)  \u{b7}  features: cuda, hf_cuda");
}

#[test]
fn words_split_on_whitespace() {
    assert_eq!(two_words("  model   llama-3 extra"), (Some("model".to_string()), Some("llama-3".to_string())));
    assert_eq!(two_words("clear"), (Some("clear".to_string()), None));
    assert_eq!(two_words("   "), (None, None));
}

#[test]
fn repl_commands_and_turns() {
    let mut r = Repl::start("m1".into(), Some("be brief".into()), 256);
    assert_eq!(r.banner(), "\u{25b2} flarion chat \u{b7} model=m1  (/exit /clear /model <id> /help)");
    assert_eq!(r.prompt(), "m1> ");
    assert!(matches!(r.input("   "), ReplAction::Ignore));
    match r.input("  hello there ") {
        ReplAction::Send(req) => {
            assert_eq!(req.model, "m1");
            assert!(req.stream);
            assert_eq!(req.max_tokens, 256);
            assert_eq!(req.messages.len(), 2);
            assert_eq!(req.messages[1].content, "hello there");
        }
        _ => panic!("expected a request"),
    }
    r.reply("hi!".into());
    r.reply(String::new());
    assert_eq!(r.messages.len(), 3);
    match r.input("/model  m2") {
        ReplAction::Say(l) => assert_eq!(l, vec!["(model \u{2192} m2)".to_string()]),
        _ => panic!("expected a reply"),
    }
    assert_eq!(r.model, "m2");
    match r.input("/model") {
        ReplAction::Say(l) => assert_eq!(l, vec!["usage: /model <id>".to_string()]),
        _ => panic!("expected usage"),
    }
    match r.input("/clear") {
        ReplAction::Say(l) => assert_eq!(l, vec!["(history cleared)".to_string()]),
        _ => panic!("expected a reply"),
    }
    assert_eq!(r.messages.len(), 1);
    match r.input("/help") {
        ReplAction::Say(l) => assert_eq!(l.len(), 3),
        _ => panic!("expected help"),
    }
    match r.input("/frob") {
        ReplAction::Say(l) => assert_eq!(l, vec!["unknown command: /frob (try /help)".to_string()]),
        _ => panic!("expected a complaint"),
    }
    assert!(matches!(r.input("/"), ReplAction::Ignore));
    assert!(matches!(r.input("/q"), ReplAction::Exit));
}

#[test]
fn oneshot_request_carries_system_and_prompt() {
    let req = oneshot_request("m".into(), &Some("sys".into()), "hi", 512);
    assert!(!req.stream);
    assert_eq!(req.messages.len(), 2);
    assert_eq!(req.messages[0].role, "system");
    assert_eq!(req.messages[1].role, "user");
    assert_eq!(req.temperature_bits, 0.7f32.to_bits());
    assert_eq!(req.top_p_bits, 0.9f32.to_bits());
}
