use flarion::endpoint::{
    interpolate_env, key_from_command, resolve, ClientError, Endpoint, EndpointEntry, EndpointError,
    EndpointFile, EntryStep, KeyCommandResult, LocalServer, ResolveArgs, ResolveStep,
};

fn env_of(pairs: &[(&str, &str)]) -> Vec<(String, String)> {
    pairs.iter().map(|(k, v)| (k.to_string(), v.to_string())).collect()
}

fn entry(url: &str, api_key: Option<&str>, api_key_cmd: Option<&str>) -> EndpointEntry {
    EndpointEntry {
        url: url.into(),
        api_key: api_key.map(|s| s.to_string()),
        api_key_cmd: api_key_cmd.map(|s| s.to_string()),
    }
}

fn done_entry(st: EntryStep) -> Result<Endpoint, EndpointError> {
    match st {
        EntryStep::Done(r) => r,
        EntryStep::RunKeyCommand(c) => panic!("unexpected key command {c}"),
    }
}

fn done(st: ResolveStep) -> Result<Endpoint, ClientError> {
    match st {
        ResolveStep::Done(r) => r,
        ResolveStep::RunKeyCommand(c) => panic!("unexpected key command {c}"),
    }
}

#[test]
fn interpolate_env_returns_value_of_env_var() {
    let env = env_of(&[("FLARION_TEST_KEY_A", "abc123")]);
    assert_eq!(interpolate_env("${FLARION_TEST_KEY_A}", &env).unwrap(), "abc123");
}

#[test]
fn interpolate_env_passes_through_literal() {
    assert_eq!(interpolate_env("literal-string", &vec![]).unwrap(), "literal-string");
}

#[test]
fn interpolate_env_errors_on_missing_var() {
    let err = interpolate_env("${FLARION_TEST_MISSING_XYZ}", &vec![]).unwrap_err();
    match err {
        EndpointError::EnvVarNotSet { var } => assert_eq!(var, "FLARION_TEST_MISSING_XYZ"),
        other => panic!("unexpected {other:?}"),
    }
    let msg = interpolate_env("${NOPE}", &vec![]).unwrap_err().message();
    assert_eq!(msg, "env var NOPE not set");
}

#[test]
fn interpolate_env_only_whole_references() {
    let env = env_of(&[("A", "x")]);
    assert_eq!(interpolate_env("pre-${A}", &env).unwrap(), "pre-${A}");
    assert_eq!(interpolate_env("${A", &env).unwrap(), "${A");
}

#[test]
fn entry_resolve_with_literal_key() {
    let e = entry("http://x", Some("plain-key"), None);
    let ep = done_entry(e.resolve("n", &vec![], None)).unwrap();
    assert_eq!(ep.name, "n");
    assert_eq!(ep.url, "http://x");
    assert_eq!(ep.api_key.as_deref(), Some("plain-key"));
}

#[test]
fn entry_resolve_with_env_var_reference() {
    let env = env_of(&[("FLARION_TEST_RESOLVE_KEY", "from-env")]);
    let e = entry("http://x", Some("${FLARION_TEST_RESOLVE_KEY}"), None);
    let ep = done_entry(e.resolve("n", &env, None)).unwrap();
    assert_eq!(ep.api_key.as_deref(), Some("from-env"));
}

#[test]
fn entry_resolve_with_no_key() {
    let e = entry("http://x", None, None);
    let ep = done_entry(e.resolve("n", &vec![], None)).unwrap();
    assert!(ep.api_key.is_none());
}

#[test]
fn entry_key_command_is_asked_for_then_used() {
    let e = entry("http://x", None, Some("pass show flarion"));
    match e.resolve("n", &vec![], None) {
        EntryStep::RunKeyCommand(c) => assert_eq!(c, "pass show flarion"),
        EntryStep::Done(_) => panic!("expected a key command request"),
    }
    let ran = KeyCommandResult::Ran { success: true, stdout: "  k3y\n".into(), stderr: String::new() };
    let ep = done_entry(e.resolve("n", &vec![], Some(ran))).unwrap();
    assert_eq!(ep.api_key.as_deref(), Some("k3y"));
}

#[test]
fn literal_key_wins_over_key_command() {
    let e = entry("http://x", Some("lit"), Some("echo other"));
    let ep = done_entry(e.resolve("n", &vec![], None)).unwrap();
    assert_eq!(ep.api_key.as_deref(), Some("lit"));
}

#[test]
fn failed_key_commands_are_errors() {
    let failed = KeyCommandResult::Ran { success: false, stdout: String::new(), stderr: "boom".into() };
    match key_from_command(&failed) {
        Err(EndpointError::KeyCommandFailed { message }) => assert_eq!(message, "api_key_cmd failed: boom"),
        other => panic!("unexpected {other:?}"),
    }
    let spawn = KeyCommandResult::SpawnFailed("no such file".into());
    match key_from_command(&spawn) {
        Err(EndpointError::KeyCommandFailed { message }) => assert_eq!(message, "no such file"),
        other => panic!("unexpected {other:?}"),
    }
}

#[test]
fn file_insert_replaces_same_name() {
    let mut f = EndpointFile::new();
    f.insert("home".into(), entry("http://a", None, None));
    f.insert("work".into(), entry("http://b", None, None));
    f.insert("home".into(), entry("http://c", None, None));
    assert_eq!(f.len(), 2);
    assert_eq!(f.get("home").unwrap().url, "http://c");
    assert!(f.get("none").is_none());
}

fn no_args() -> ResolveArgs {
    ResolveArgs { url_flag: None, api_key_flag: None, endpoint_name: None }
}

#[test]
fn flag_beats_everything_else() {
    let args = ResolveArgs {
        url_flag: Some("http://flag-wins".into()),
        api_key_flag: Some("flagkey".into()),
        endpoint_name: Some("home".into()),
    };
    let mut f = EndpointFile::new();
    f.insert("home".into(), entry("http://home", None, None));
    let ep = done(resolve(&args, &vec![], Some(&f), None, None)).unwrap();
    assert_eq!(ep.url, "http://flag-wins");
    assert_eq!(ep.api_key.as_deref(), Some("flagkey"));
}

#[test]
fn named_endpoint_resolves_from_file() {
    let args = ResolveArgs { url_flag: None, api_key_flag: None, endpoint_name: Some("v100".into()) };
    let mut f = EndpointFile::new();
    f.insert("v100".into(), entry("http://v100.lan:8080", None, None));
    let ep = done(resolve(&args, &vec![], Some(&f), None, None)).unwrap();
    assert_eq!(ep.url, "http://v100.lan:8080");
    assert_eq!(ep.name, "v100");
}

#[test]
fn default_endpoint_used_when_no_flags_or_name() {
    let mut f = EndpointFile::new();
    f.default = Some("home".into());
    f.insert("home".into(), entry("http://home:8080", None, None));
    let ep = done(resolve(&no_args(), &vec![], Some(&f), None, None)).unwrap();
    assert_eq!(ep.url, "http://home:8080");
}

#[test]
fn loopback_default_when_nothing_else() {
    let ep = done(resolve(&no_args(), &vec![], None, None, None)).unwrap();
    assert_eq!(ep.name, "loopback");
    assert_eq!(ep.url, "http://127.0.0.1:8080");
    assert!(ep.api_key.is_none());
}

#[test]
fn env_url_beats_file_and_local_server() {
    let env = env_of(&[("FLARION_URL", "http://from-env"), ("FLARION_API_KEY", "ek")]);
    let mut f = EndpointFile::new();
    f.default = Some("home".into());
    f.insert("home".into(), entry("http://home", None, None));
    let local = LocalServer { host: "0.0.0.0".into(), port: 9000, api_key: None };
    let ep = done(resolve(&no_args(), &env, Some(&f), Some(&local), None)).unwrap();
    assert_eq!(ep.name, "env");
    assert_eq!(ep.url, "http://from-env");
    assert_eq!(ep.api_key.as_deref(), Some("ek"));
}

#[test]
fn local_server_config_is_used_before_loopback() {
    let local = LocalServer { host: "10.0.0.2".into(), port: 9000, api_key: Some("lk".into()) };
    let ep = done(resolve(&no_args(), &vec![], None, Some(&local), None)).unwrap();
    assert_eq!(ep.name, "local");
    assert_eq!(ep.url, "http://10.0.0.2:9000");
    assert_eq!(ep.api_key.as_deref(), Some("lk"));
}

#[test]
fn entry_errors_surface_as_client_errors() {
    let args = ResolveArgs { url_flag: None, api_key_flag: None, endpoint_name: Some("home".into()) };
    let mut f = EndpointFile::new();
    f.insert("home".into(), entry("http://home", Some("${MISSING}"), None));
    match done(resolve(&args, &vec![], Some(&f), None, None)) {
        Err(ClientError::Server { status, body }) => {
            assert_eq!(status, 0);
            assert_eq!(body, "env var MISSING not set");
        }
        other => panic!("unexpected {other:?}"),
    }
}

#[test]
fn client_error_messages() {
    assert_eq!(ClientError::Unauthorized.message(), "unauthorized");
    assert_eq!(ClientError::Timeout.message(), "request timed out");
    assert_eq!(
        ClientError::Server { status: 502, body: "bad".into() }.message(),
        "server error 502: bad"
    );
    assert_eq!(
        ClientError::Unreachable { url: "http://x".into(), reason: "refused".into() }.message(),
        "cannot reach http://x: refused"
    );
}
