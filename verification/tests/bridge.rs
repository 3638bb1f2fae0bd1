use serde_json::Value;
use yazelix_helix::bridge_env::{
    default_instance_id, matches_disabled, matches_enabled, required_id_env, required_path_env,
    required_secret_env, validate_id, BridgeConfig, BridgeEnv, EnvValue, SetupErrorKind,
};
use yazelix_helix::bridge_layout::{bridge_registry, bridge_transport, BridgeLayout, BridgeTransport, Platform};
use yazelix_helix::bridge_protocol::{
    handle_connection, parse_request, request_timeout_ms, BridgeRequest, BridgeResponse,
    ConnectionAction, ConnectionEvent, ConnectionState, ReplyOutcome, ResponseStatus,
};

fn present(s: &str) -> EnvValue {
    EnvValue::Present(s.to_string())
}

fn enabled_env() -> BridgeEnv {
    BridgeEnv {
        enable: present("1"),
        state_dir: present("/tmp/state"),
        session_id: present("session-1"),
        instance_id: present("inst_1"),
        auth_token: present("secret-token"),
        managed_config_path: present("/cfg/helix"),
        zellij_session_name: present("zs"),
        zellij_tab_position: EnvValue::Absent,
        zellij_pane_id: EnvValue::NotUnicode("bad".to_string()),
        pid: 12,
        started_at_unix_ms: 345,
    }
}

fn request(schema: u8, id: &str, token: &str, action: &str, timeout: Option<u64>) -> BridgeRequest {
    BridgeRequest {
        schema_version: schema,
        request_id: id.to_string(),
        auth_token: token.to_string(),
        action: action.to_string(),
        timeout_ms: timeout,
        payload: Value::Null,
    }
}

/// Decodes a request line the way the bridge's reader does, field by field.
fn decode_line(line: &str) -> Result<BridgeRequest, String> {
    let value: Value = serde_json::from_str(line).map_err(|e| e.to_string())?;
    let text = |key: &str| -> Result<String, String> {
        value
            .get(key)
            .and_then(Value::as_str)
            .map(str::to_string)
            .ok_or_else(|| format!("missing field `{key}`"))
    };
    let schema_version = value
        .get("schema_version")
        .and_then(Value::as_u64)
        .and_then(|n| u8::try_from(n).ok())
        .ok_or_else(|| "missing field `schema_version`".to_string())?;
    Ok(BridgeRequest {
        schema_version,
        request_id: text("request_id")?,
        auth_token: text("auth_token")?,
        action: text("action")?,
        timeout_ms: value.get("timeout_ms").and_then(Value::as_u64),
        payload: value.get("payload").cloned().unwrap_or(Value::Null),
    })
}

fn error_parts(r: &BridgeResponse) -> (String, String, String) {
    assert_eq!(r.schema_version, 2);
    assert_eq!(r.status, ResponseStatus::Failure);
    assert_eq!(r.status.as_str(), "error");
    assert!(r.data.is_none());
    let e = r.error.as_ref().unwrap();
    (r.request_id.clone(), e.class.clone(), e.message.clone())
}

#[test]
fn parse_request_rejects_wrong_auth_token() {
    let response = parse_request(
        decode_line(
            r#"{"schema_version":2,"request_id":"r1","auth_token":"wrong","action":"helix.get_context"}"#,
        ),
        "expected",
    )
    .unwrap_err();

    assert_eq!(response.status.as_str(), "error");
    assert_eq!(response.error.unwrap().class, "permission_denied");
}

#[test]
fn validate_id_rejects_path_traversal() {
    let err = validate_id("TEST_ID", "../session".to_string()).unwrap_err();
    assert!(err.message().contains("ASCII letters"));
}

#[test]
fn validate_id_rules() {
    assert_eq!(validate_id("X", "a.b-c_D9".to_string()).unwrap(), "a.b-c_D9");
    let e = validate_id("X", "".to_string()).unwrap_err();
    assert_eq!(e.kind, SetupErrorKind::InvalidId);
    assert_eq!(e.message(), "X must be non-empty and untrimmed");
    let e = validate_id("X", " ab".to_string()).unwrap_err();
    assert_eq!(e.kind, SetupErrorKind::InvalidId);
    let e = validate_id("X", "a/b".to_string()).unwrap_err();
    assert_eq!(e.kind, SetupErrorKind::InvalidIdChars);
    assert_eq!(
        e.message(),
        "X may only contain ASCII letters, numbers, dots, hyphens, and underscores"
    );
    let e = validate_id("X", "é".to_string()).unwrap_err();
    assert_eq!(e.kind, SetupErrorKind::InvalidIdChars);
    for dots in [".", "..", "..."] {
        let e = validate_id("X", dots.to_string()).unwrap_err();
        assert_eq!(e.kind, SetupErrorKind::InvalidIdChars);
        assert_eq!(e.message(), "X must not be made of dots alone");
    }
    assert_eq!(validate_id("X", ".a.".to_string()).unwrap(), ".a.");
}

#[test]
fn switch_words() {
    assert!(matches_enabled("1"));
    assert!(!matches_disabled("1"));
    for w in ["0", "false", "no", "off", " off"] {
        assert!(matches_disabled(w), "{w}");
        assert!(!matches_enabled(w), "{w}");
    }
    for w in ["", "TRUE", "enable", "2", "true", "yes", "on", " 1", "1\n"] {
        assert!(!matches_enabled(w) && !matches_disabled(w), "{w}");
    }
}

#[test]
fn required_values() {
    let e = required_path_env("P", EnvValue::Absent).unwrap_err();
    assert_eq!(e.kind, SetupErrorKind::UnreadableVar);
    assert_eq!(e.message(), "environment variable not found");
    let e = required_path_env("P", present("  ")).unwrap_err();
    assert_eq!(e.kind, SetupErrorKind::EmptyPath);
    assert_eq!(e.message(), "P must be non-empty when YAZELIX_HELIX_BRIDGE=1");
    assert_eq!(required_path_env("P", present(" /x ")).unwrap(), " /x ");
    let e = required_id_env("S", EnvValue::NotUnicode("not unicode".to_string())).unwrap_err();
    assert_eq!(e.message(), "not unicode");
    assert_eq!(required_id_env("S", present("abc")).unwrap(), "abc");
    for bad in ["", " tok", "tok ", "a\nb", "a\rb"] {
        let e = required_secret_env("T", present(bad)).unwrap_err();
        assert_eq!(e.kind, SetupErrorKind::InvalidSecret);
        assert_eq!(e.message(), "T must be non-empty, untrimmed, and single-line");
    }
    assert_eq!(required_secret_env("T", present("a b")).unwrap(), "a b");
}

#[test]
fn default_instance_id_format() {
    assert_eq!(default_instance_id(12, 345), "hx-12-345");
    assert_eq!(default_instance_id(0, 0), "hx-0-0");
    let id = default_instance_id(u32::MAX, u128::MAX);
    assert_eq!(id, format!("hx-{}-{}", u32::MAX, u128::MAX));
    assert!(validate_id("I", id).is_ok());
}

#[test]
fn config_disabled_and_invalid_switch() {
    let mut env = enabled_env();
    env.enable = EnvValue::Absent;
    assert!(BridgeConfig::from_env(env).unwrap().is_none());
    let mut env = enabled_env();
    env.enable = present(" off ");
    env.state_dir = EnvValue::Absent;
    assert!(BridgeConfig::from_env(env).unwrap().is_none());
    let mut env = enabled_env();
    env.enable = present("maybe");
    let e = BridgeConfig::from_env(env).unwrap_err();
    assert_eq!(e.kind, SetupErrorKind::InvalidEnableValue);
    assert_eq!(
        e.message(),
        "YAZELIX_HELIX_BRIDGE must be 1 to enable the bridge, or one of 0, false, no, or off; got `maybe`"
    );
    for word in ["true", "yes", "on", " 1 "] {
        let mut env = enabled_env();
        env.enable = present(word);
        let e = BridgeConfig::from_env(env).unwrap_err();
        assert_eq!(e.kind, SetupErrorKind::InvalidEnableValue);
    }
    let mut env = enabled_env();
    env.session_id = present("..");
    let e = BridgeConfig::from_env(env).unwrap_err();
    assert_eq!(e.message(), "YAZELIX_HELIX_BRIDGE_SESSION_ID must not be made of dots alone");
    let mut env = enabled_env();
    env.enable = EnvValue::NotUnicode("environment variable was not valid unicode: \"\\xFF\"".to_string());
    let e = BridgeConfig::from_env(env).unwrap_err();
    assert_eq!(e.kind, SetupErrorKind::UnreadableVar);
    assert_eq!(
        e.message(),
        "Could not read YAZELIX_HELIX_BRIDGE: environment variable was not valid unicode: \"\\xFF\""
    );
}

#[test]
fn config_enabled() {
    let c = BridgeConfig::from_env(enabled_env()).unwrap().unwrap();
    assert_eq!(c.state_dir, "/tmp/state");
    assert_eq!(c.session_id, "session-1");
    assert_eq!(c.instance_id, "inst_1");
    assert_eq!(c.auth_token, "secret-token");
    assert_eq!(c.managed_config_path.as_deref(), Some("/cfg/helix"));
    assert_eq!(c.zellij_session_name.as_deref(), Some("zs"));
    assert_eq!(c.zellij_tab_position, None);
    assert_eq!(c.zellij_pane_id, None);
}

#[test]
fn config_defaults_instance_id() {
    let mut env = enabled_env();
    env.instance_id = EnvValue::Absent;
    let c = BridgeConfig::from_env(env).unwrap().unwrap();
    assert_eq!(c.instance_id, "hx-12-345");
    let mut env = enabled_env();
    env.instance_id = EnvValue::NotUnicode("x".to_string());
    let c = BridgeConfig::from_env(env).unwrap().unwrap();
    assert_eq!(c.instance_id, "hx-12-345");
    let mut env = enabled_env();
    env.instance_id = present("bad id");
    let e = BridgeConfig::from_env(env).unwrap_err();
    assert_eq!(e.kind, SetupErrorKind::InvalidIdChars);
    assert!(e.message().starts_with("YAZELIX_HELIX_BRIDGE_INSTANCE_ID may only"));
}

#[test]
fn config_first_failure_wins() {
    let mut env = enabled_env();
    env.state_dir = EnvValue::Absent;
    env.session_id = present("../x");
    let e = BridgeConfig::from_env(env).unwrap_err();
    assert_eq!(e.kind, SetupErrorKind::UnreadableVar);
    let mut env = enabled_env();
    env.session_id = present("../x");
    env.auth_token = EnvValue::Absent;
    let e = BridgeConfig::from_env(env).unwrap_err();
    assert_eq!(e.kind, SetupErrorKind::InvalidIdChars);
    assert!(e.message().starts_with("YAZELIX_HELIX_BRIDGE_SESSION_ID"));
    let mut env = enabled_env();
    env.auth_token = present("two\nlines");
    let e = BridgeConfig::from_env(env).unwrap_err();
    assert_eq!(e.kind, SetupErrorKind::InvalidSecret);
    assert_eq!(
        e.message(),
        "YAZELIX_HELIX_BRIDGE_AUTH_TOKEN must be non-empty, untrimmed, and single-line"
    );
}

#[test]
fn parse_request_checks_in_order() {
    let r = parse_request(Err("expected value at line 1 column 1".to_string()), "t").unwrap_err();
    assert_eq!(
        error_parts(&r),
        (
            String::new(),
            "invalid_payload".to_string(),
            "Invalid JSON request: expected value at line 1 column 1".to_string()
        )
    );
    let r = parse_request(Ok(request(3, "r1", "t", "a", None)), "t").unwrap_err();
    assert_eq!(
        error_parts(&r),
        (
            "r1".to_string(),
            "invalid_payload".to_string(),
            "Unsupported bridge schema version 3; expected 2".to_string()
        )
    );
    let r = parse_request(Ok(request(2, "  ", "t", "a", None)), "t").unwrap_err();
    assert_eq!(
        error_parts(&r),
        (String::new(), "invalid_payload".to_string(), "Bridge request_id must be non-empty".to_string())
    );
    let r = parse_request(Ok(request(2, "r1", "t", "\t", None)), "t").unwrap_err();
    assert_eq!(
        error_parts(&r),
        ("r1".to_string(), "invalid_payload".to_string(), "Bridge action must be non-empty".to_string())
    );
    let r = parse_request(Ok(request(2, "r1", "wrong", "a", None)), "t").unwrap_err();
    assert_eq!(
        error_parts(&r),
        (
            "r1".to_string(),
            "permission_denied".to_string(),
            "Bridge auth token did not match this Helix instance".to_string()
        )
    );
    let ok = parse_request(Ok(request(2, "r1", "t", "helix.set_cwd", Some(7))), "t").unwrap();
    assert_eq!(ok.request_id, "r1");
    assert_eq!(ok.action, "helix.set_cwd");
    assert_eq!(ok.timeout_ms, Some(7));
}

#[test]
fn timeouts_are_clamped() {
    assert_eq!(request_timeout_ms(None), 1500);
    assert_eq!(request_timeout_ms(Some(0)), 1);
    assert_eq!(request_timeout_ms(Some(5)), 5);
    assert_eq!(request_timeout_ms(Some(10_000)), 10_000);
    assert_eq!(request_timeout_ms(Some(u64::MAX)), 10_000);
}

#[test]
fn connection_happy_path() {
    let (state, action) = handle_connection(
        ConnectionState::Reading,
        ConnectionEvent::LineRead(Ok(request(2, "r9", "t", "helix.get_context", Some(20_000)))),
        "t",
    );
    match action {
        ConnectionAction::Dispatch { request_id, action, payload, timeout_ms } => {
            assert_eq!(request_id, "r9");
            assert_eq!(action, "helix.get_context");
            assert_eq!(payload, Value::Null);
            assert_eq!(timeout_ms, 10_000);
        }
        other => panic!("unexpected {other:?}"),
    }
    let (state, action) = handle_connection(state, ConnectionEvent::Dispatched(true), "t");
    assert!(matches!(action, ConnectionAction::AwaitReply));
    let reply = BridgeResponse::ok("r9".to_string(), Value::Bool(true));
    let (state, action) =
        handle_connection(state, ConnectionEvent::Reply(ReplyOutcome::Response(reply)), "t");
    assert!(matches!(state, ConnectionState::Finished));
    match action {
        ConnectionAction::Respond(r) => {
            assert_eq!(r.status.as_str(), "ok");
            assert_eq!(r.request_id, "r9");
            assert_eq!(r.data, Some(Value::Bool(true)));
            assert!(r.error.is_none());
        }
        other => panic!("unexpected {other:?}"),
    }
}

fn dispatched_state(id: &str) -> ConnectionState {
    let (state, _) = handle_connection(
        ConnectionState::Reading,
        ConnectionEvent::LineRead(Ok(request(2, id, "t", "a", None))),
        "t",
    );
    state
}

fn respond_parts(action: ConnectionAction) -> (String, String, String) {
    match action {
        ConnectionAction::Respond(r) => error_parts(&r),
        other => panic!("unexpected {other:?}"),
    }
}

#[test]
fn connection_failures() {
    let (state, action) = handle_connection(
        ConnectionState::Reading,
        ConnectionEvent::ReadFailed("stream did not contain valid UTF-8".to_string()),
        "t",
    );
    assert!(matches!(state, ConnectionState::Finished));
    assert_eq!(
        respond_parts(action),
        (
            String::new(),
            "invalid_payload".to_string(),
            "Could not read request: stream did not contain valid UTF-8".to_string()
        )
    );
    let (_, action) = handle_connection(
        ConnectionState::Reading,
        ConnectionEvent::LineRead(Ok(request(2, "r1", "x", "a", None))),
        "t",
    );
    assert_eq!(respond_parts(action).1, "permission_denied");

    let (state, action) = handle_connection(dispatched_state("r2"), ConnectionEvent::Dispatched(false), "t");
    assert!(matches!(state, ConnectionState::Finished));
    assert_eq!(
        respond_parts(action),
        (
            "r2".to_string(),
            "stale_instance".to_string(),
            "Helix bridge is no longer accepting requests".to_string()
        )
    );
    let (waiting, _) = handle_connection(dispatched_state("r3"), ConnectionEvent::Dispatched(true), "t");
    let (_, action) = handle_connection(waiting, ConnectionEvent::Reply(ReplyOutcome::TimedOut), "t");
    assert_eq!(
        respond_parts(action),
        (
            "r3".to_string(),
            "timeout".to_string(),
            "Timed out waiting for Helix to handle the bridge request".to_string()
        )
    );
    let (waiting, _) = handle_connection(dispatched_state("r4"), ConnectionEvent::Dispatched(true), "t");
    let (_, action) = handle_connection(waiting, ConnectionEvent::Reply(ReplyOutcome::Disconnected), "t");
    assert_eq!(
        respond_parts(action),
        (
            "r4".to_string(),
            "stale_instance".to_string(),
            "Helix bridge response channel closed".to_string()
        )
    );
}

#[test]
fn response_constructors() {
    let r = BridgeResponse::error("id".to_string(), "custom_class", "m".to_string());
    assert_eq!(error_parts(&r), ("id".to_string(), "custom_class".to_string(), "m".to_string()));
    let r = BridgeResponse::ok("id".to_string(), Value::from(3));
    assert_eq!(r.schema_version, 2);
    assert_eq!(r.status, ResponseStatus::Success);
    assert_eq!(r.data, Some(Value::from(3)));
}

#[test]
fn layout_and_transport() {
    let c = BridgeConfig::from_env(enabled_env()).unwrap().unwrap();
    let l = BridgeLayout::for_config(&c, Platform::Unix);
    assert_eq!(l.bridge_dir, "/tmp/state/helix_bridge/session-1");
    assert_eq!(l.registry_path, "/tmp/state/helix_bridge/session-1/inst_1.json");
    assert_eq!(l.token_path, "/tmp/state/helix_bridge/session-1/inst_1.token");
    let mut env = enabled_env();
    env.state_dir = present("/tmp/state/");
    let c2 = BridgeConfig::from_env(env).unwrap().unwrap();
    assert_eq!(
        BridgeLayout::for_config(&c2, Platform::Unix).bridge_dir,
        "/tmp/state/helix_bridge/session-1"
    );
    let mut env = enabled_env();
    env.state_dir = present("C:\\Users\\me\\state");
    let cw = BridgeConfig::from_env(env).unwrap().unwrap();
    let lw = BridgeLayout::for_config(&cw, Platform::Windows);
    assert_eq!(lw.bridge_dir, "C:\\Users\\me\\state\\helix_bridge\\session-1");
    assert_eq!(lw.registry_path, "C:\\Users\\me\\state\\helix_bridge\\session-1\\inst_1.json");
    assert_eq!(lw.token_path, "C:\\Users\\me\\state\\helix_bridge\\session-1\\inst_1.token");

    match bridge_transport(Platform::Unix, &c, &l.bridge_dir).unwrap() {
        BridgeTransport::UnixSocket { path } => {
            assert_eq!(path, "/tmp/state/helix_bridge/session-1/inst_1.sock")
        }
        other => panic!("unexpected {other:?}"),
    }
    match bridge_transport(Platform::Windows, &c, &l.bridge_dir).unwrap() {
        BridgeTransport::WindowsNamedPipe { name } => {
            assert_eq!(name, r"\\.\pipe\yazelix-helix-session-1-inst_1")
        }
        other => panic!("unexpected {other:?}"),
    }
    let e = bridge_transport(Platform::Other, &c, &l.bridge_dir).unwrap_err();
    assert_eq!(e.kind, SetupErrorKind::UnsupportedPlatform);
    assert_eq!(e.message(), "Yazelix Helix bridge requires Unix sockets or Windows named pipes");
}

#[test]
fn registry_fields() {
    let c = BridgeConfig::from_env(enabled_env()).unwrap().unwrap();
    let t = BridgeTransport::UnixSocket { path: "/s".to_string() };
    let r = bridge_registry(&c, t, "/tok", 42, 99);
    assert_eq!(r.schema_version, 2);
    assert_eq!(r.session_id, "session-1");
    assert_eq!(r.instance_id, "inst_1");
    assert_eq!(r.auth_token_path, "/tok");
    assert_eq!(r.pid, 42);
    assert_eq!(r.started_at_unix_ms, 99);
    assert_eq!(r.managed_config_path.as_deref(), Some("/cfg/helix"));
    assert_eq!(r.zellij_session_name.as_deref(), Some("zs"));
}
