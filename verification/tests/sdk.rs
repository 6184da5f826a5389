use grok_peers::auth::{read_stored_cursor_api_key, resolve_cursor_api_key, stored_key_in};
use grok_peers::bridge::{
    await_ready, bridge_args, bridge_endpoint, bridge_env, check_protocol_version, read_bearer,
    spawn_error, verify_live_bridge, ReadyOutcome, ReadyWatch,
};
use grok_peers::client::{
    gather_run, proto_value_string, send_result, struct_text, ProtoValue, RunMessage,
};
use grok_peers::discover::{discover_bridge_bin_with, resolve_grok_bin_with, BRIDGE_BIN_ENV};
use grok_peers::error::CursorSdkError;
use grok_peers::handshake::{check_payload, parse_ready_line, ReadyInfo};
use grok_peers::peers_mcp::{
    check_initialize_reply, check_tools_reply, peers_mcp_servers, preflight_result, read_ndjson,
    stdio_child_env, Handshake, HandshakeStep, PeersMcpIdentity, PreflightOutcome,
    StdioMcpServerConfig,
};
use grok_peers::transport::{
    authorization, connect_error, connect_error_from_body, decode_connect_stream,
    encode_connect_frame, rpc_url, split_frames, stream_reply, unary_reply, ConnectErrorBody,
};
use prost::Message;
use serde_json::Value;

fn parse(text: &str) -> Value {
    serde_json::from_str(text).unwrap()
}

// -- auth -------------------------------------------------------------------

#[test]
fn env_wins_over_disk() {
    let got = resolve_cursor_api_key(Some("env-key".to_string()), || Some("disk-key".to_string()))
        .unwrap();
    assert_eq!(got, "env-key");
}

#[test]
fn disk_used_when_env_absent() {
    let got = resolve_cursor_api_key(None, || Some("disk-key".to_string())).unwrap();
    assert_eq!(got, "disk-key");
}

#[test]
fn missing_both_is_error() {
    let err = resolve_cursor_api_key(None, || None).unwrap_err();
    assert!(err.display().contains("login-cursor"));
}

#[test]
fn blank_keys_do_not_count() {
    let env = resolve_cursor_api_key(Some(" k ".to_string()), || panic!("not read")).unwrap();
    assert_eq!(env, "k");
    let disk = resolve_cursor_api_key(Some("  ".to_string()), || Some(" d\n".to_string())).unwrap();
    assert_eq!(disk, "d");
    assert!(resolve_cursor_api_key(None, || Some(" ".to_string())).is_err());
}

#[test]
fn stored_key_is_read_from_its_own_scope() {
    let text = r#"{"xai::api_key":{"key":"x"},"cursor::api_key":{"key":" c "}}"#;
    assert_eq!(read_stored_cursor_api_key(Some(text)).as_deref(), Some("c"));
    assert_eq!(stored_key_in(&parse(text)).as_deref(), Some("c"));
    assert_eq!(read_stored_cursor_api_key(Some(r#"{"xai::api_key":{"key":"x"}}"#)), None);
    assert_eq!(read_stored_cursor_api_key(Some(r#"{"cursor::api_key":{"key":" "}}"#)), None);
    assert_eq!(read_stored_cursor_api_key(Some(r#"{"cursor::api_key":{"key":1}}"#)), None);
    assert_eq!(read_stored_cursor_api_key(Some("nope")), None);
    assert_eq!(read_stored_cursor_api_key(None), None);
}

#[test]
fn errors_are_shown() {
    let rpc = CursorSdkError::Rpc {
        method: "s/M".to_string(),
        code: "c".to_string(),
        message: "m".to_string(),
        request_id: None,
    };
    assert_eq!(rpc.display(), "connect rpc s/M failed (c): m");
    assert_eq!(
        CursorSdkError::BridgeNotFound("x".to_string()).display(),
        "cursor-sdk-bridge not found: x"
    );
    assert_eq!(
        CursorSdkError::Handshake("x".to_string()).display(),
        "bridge handshake failed: x"
    );
    assert_eq!(CursorSdkError::Io("io".to_string()).display(), "io");
    assert_eq!(CursorSdkError::Http("http".to_string()).display(), "http");
    assert_eq!(CursorSdkError::Json("json".to_string()).display(), "json");
    assert_eq!(CursorSdkError::Prost("prost".to_string()).display(), "prost");
    assert_eq!(
        CursorSdkError::missing_api_key().display(),
        "Cursor API key not set. Run `grok login-cursor` or export CURSOR_API_KEY \
         (https://cursor.com/dashboard/api)."
    );
}

// -- discovery --------------------------------------------------------------

fn discover(
    env_override: Option<&str>,
    exe: Option<&str>,
    home: &str,
    files: &[&str],
    on_path: Option<&str>,
) -> Result<String, CursorSdkError> {
    discover_bridge_bin_with(
        env_override.map(str::to_string),
        exe.map(str::to_string),
        home,
        false,
        |path| files.contains(&path).then(|| path.to_string()),
        |path| files.contains(&path),
        |name| {
            assert_eq!(name, "cursor-sdk-bridge");
            on_path.map(str::to_string)
        },
    )
}

#[test]
fn env_override_wins() {
    let got = discover_bridge_bin_with(
        Some("/d/cursor-sdk-bridge".to_string()),
        Some("/d/grok".to_string()),
        "/d/unused-home",
        false,
        |_| None,
        |path| path == "/d/cursor-sdk-bridge",
        |_| panic!("PATH should not be consulted"),
    )
    .unwrap();
    assert_eq!(got, "/d/cursor-sdk-bridge");
}

#[test]
fn sibling_of_current_exe() {
    let files = ["/d/grok", "/d/cursor-sdk-bridge"];
    let got = discover_bridge_bin_with(
        None,
        Some("/d/grok".to_string()),
        "/d/unused-home",
        false,
        |path| Some(path.to_string()),
        |path| files.contains(&path),
        |_| panic!("PATH should not be consulted"),
    )
    .unwrap();
    assert_eq!(got, "/d/cursor-sdk-bridge");
}

#[test]
fn grok_bin_dir_fallback() {
    let got = discover_bridge_bin_with(
        None,
        Some("/d/missing-grok".to_string()),
        "/d/home",
        false,
        |_| None,
        |path| path == "/d/home/bin/cursor-sdk-bridge",
        |_| panic!("PATH should not be consulted"),
    )
    .unwrap();
    assert_eq!(got, "/d/home/bin/cursor-sdk-bridge");
}

#[test]
fn path_last() {
    let got = discover(
        None,
        Some("/d/missing-grok"),
        "/d/empty-home",
        &["/d/on-path"],
        Some("/d/on-path"),
    )
    .unwrap();
    assert_eq!(got, "/d/on-path");
}

#[test]
fn missing_is_actionable() {
    let err = discover(None, Some("/d/missing-grok"), "/d/empty-home", &[], None).unwrap_err();
    let msg = err.display();
    assert!(msg.contains(BRIDGE_BIN_ENV), "{msg}");
}

#[test]
fn resolve_prefers_current_exe_when_it_exists() {
    let got = resolve_grok_bin_with(
        Some("/d/xai-grok-pager".to_string()),
        false,
        |path| Some(path.to_string()),
        |path| path == "/d/xai-grok-pager",
        |_| panic!("PATH should not be consulted"),
    );
    assert_eq!(got, "/d/xai-grok-pager");
}

#[test]
fn resolve_falls_back_to_path_when_current_exe_missing() {
    let got = resolve_grok_bin_with(
        Some("/d/missing".to_string()),
        false,
        |_| None,
        |path| path == "/d/grok",
        |_| Some("/d/grok".to_string()),
    );
    assert_eq!(got, "/d/grok");
}

#[test]
fn resolve_falls_back_to_bare_name() {
    let got = resolve_grok_bin_with(
        Some("/d/missing".to_string()),
        false,
        |_| None,
        |_| false,
        |_| None,
    );
    assert_eq!(got, "grok");
}

#[test]
fn bad_override_is_not_replaced() {
    let err = discover(
        Some("/nope"),
        Some("/d/grok"),
        "/d",
        &["/d/cursor-sdk-bridge"],
        Some("/p"),
    )
    .unwrap_err();
    assert_eq!(
        err.display(),
        "cursor-sdk-bridge not found: CURSOR_SDK_BRIDGE_BIN=/nope is not a file"
    );
}

#[test]
fn windows_names_end_in_exe() {
    let got = discover_bridge_bin_with(
        None,
        None,
        "C:\\h",
        true,
        |_| None,
        |path| path == "C:\\h\\bin\\cursor-sdk-bridge.exe",
        |_| None,
    )
    .unwrap();
    assert_eq!(got, "C:\\h\\bin\\cursor-sdk-bridge.exe");
    let beside = discover_bridge_bin_with(
        None,
        Some("C:\\d\\grok.exe".to_string()),
        "C:\\h",
        true,
        |_| None,
        |path| path == "C:\\d\\cursor-sdk-bridge.exe",
        |_| panic!("found beside the program"),
    )
    .unwrap();
    assert_eq!(beside, "C:\\d\\cursor-sdk-bridge.exe");
    assert_eq!(resolve_grok_bin_with(None, true, |_| None, |_| false, |_| None), "grok.exe");
}

// -- ready line -------------------------------------------------------------

fn decode_ready(json: &str) -> Result<ReadyInfo, String> {
    let v: Value = serde_json::from_str(json).map_err(|e| e.to_string())?;
    let text = |key: &str| v.get(key).and_then(Value::as_str).map(str::to_string);
    Ok(ReadyInfo {
        schema_version: v.get("schemaVersion").and_then(Value::as_u64).ok_or("schemaVersion")? as u32,
        server_version: text("serverVersion"),
        pid: v.get("pid").and_then(Value::as_u64).map(|n| n as u32),
        transport: text("transport").ok_or("missing transport")?,
        protocol: text("protocol").ok_or("missing protocol")?,
        host: text("host"),
        port: v.get("port").and_then(Value::as_u64).map(|n| n as u16),
        url: text("url"),
        auth_token_file: text("authTokenFile"),
        auth_token: text("authToken"),
    })
}

const SAMPLE: &str = r#"cursor-sdk-bridge ready {"schemaVersion":1,"serverVersion":"1.0.0","pid":12345,"transport":"tcp","protocol":"connect","host":"127.0.0.1","port":49152,"url":"http://127.0.0.1:49152","authTokenFile":"/tmp/auth-token"}"#;

fn ready(json: &str) -> ReadyInfo {
    decode_ready(json).unwrap()
}

#[test]
fn parses_valid_ready_line() {
    let info = parse_ready_line(SAMPLE, decode_ready).unwrap().unwrap();
    assert_eq!(info.schema_version, 1);
    assert_eq!(info.transport, "tcp");
    assert_eq!(info.protocol, "connect");
    assert_eq!(info.endpoint_url().unwrap(), "http://127.0.0.1:49152");
    assert_eq!(info.auth_token_file.as_deref(), Some("/tmp/auth-token"));
}

#[test]
fn ignores_unknown_fields() {
    let line = r#"cursor-sdk-bridge ready {"schemaVersion":1,"transport":"tcp","protocol":"connect","url":"http://127.0.0.1:1","futureField":true}"#;
    let info = parse_ready_line(line, decode_ready).unwrap().unwrap();
    assert_eq!(info.endpoint_url().unwrap(), "http://127.0.0.1:1");
}

#[test]
fn rejects_bad_schema() {
    let line = r#"cursor-sdk-bridge ready {"schemaVersion":2,"transport":"tcp","protocol":"connect","url":"http://127.0.0.1:1"}"#;
    let err = parse_ready_line(line, decode_ready).unwrap_err();
    assert!(err.display().contains("schemaVersion"));
}

#[test]
fn non_ready_is_none() {
    assert!(parse_ready_line("listening on 127.0.0.1", decode_ready).unwrap().is_none());
}

#[test]
fn host_port_fallback() {
    let line = r#"cursor-sdk-bridge ready {"schemaVersion":1,"transport":"tcp","protocol":"connect","host":"127.0.0.1","port":9}"#;
    let info = parse_ready_line(line, decode_ready).unwrap().unwrap();
    assert_eq!(info.endpoint_url().unwrap(), "http://127.0.0.1:9");
}

#[test]
fn ready_lines_are_checked() {
    let fault = |json: &str| check_payload(ready(json)).unwrap_err().display();
    assert_eq!(
        fault(r#"{"schemaVersion":7,"transport":"udp","protocol":"x"}"#),
        "bridge handshake failed: unsupported ready schemaVersion 7"
    );
    assert_eq!(
        fault(r#"{"schemaVersion":1,"transport":"udp","protocol":"x"}"#),
        "bridge handshake failed: unsupported transport udp"
    );
    assert_eq!(
        fault(r#"{"schemaVersion":1,"transport":"tcp","protocol":"x"}"#),
        "bridge handshake failed: unsupported protocol x"
    );
    let invalid = parse_ready_line("cursor-sdk-bridge ready nope", |json| {
        assert_eq!(json, "nope");
        Err("bad".to_string())
    })
    .unwrap_err();
    assert_eq!(invalid.display(), "bridge handshake failed: invalid ready JSON: bad");
}

#[test]
fn endpoints_are_written_as_urls() {
    let url = |json: &str| ready(json).endpoint_url();
    assert_eq!(
        url(r#"{"schemaVersion":1,"transport":"","protocol":"","url":"http://h/a//"}"#).unwrap(),
        "http://h/a"
    );
    assert_eq!(
        url(r#"{"schemaVersion":1,"transport":"","protocol":"","url":"","host":"::1","port":80}"#)
            .unwrap(),
        "http://[::1]:80"
    );
    assert_eq!(
        url(r#"{"schemaVersion":1,"transport":"","protocol":"","host":"[::1]","port":0}"#).unwrap(),
        "http://[::1]:0"
    );
    assert_eq!(
        url(r#"{"schemaVersion":1,"transport":"","protocol":"","port":65535}"#).unwrap(),
        "http://127.0.0.1:65535"
    );
    assert_eq!(
        url(r#"{"schemaVersion":1,"transport":"","protocol":""}"#).unwrap_err().display(),
        "bridge handshake failed: ready line missing url and port"
    );
}

// -- bridge -----------------------------------------------------------------

#[test]
fn protocol_version_sdk_v1_ok() {
    check_protocol_version("sdk.v1").unwrap();
}

#[test]
fn protocol_version_rejects_other() {
    let err = check_protocol_version("sdk.v2").unwrap_err();
    let msg = err.display();
    assert!(msg.contains("sdk.v2"), "{msg}");
    assert!(msg.contains("sdk.v1"), "{msg}");
}

#[test]
fn protocol_version_is_quoted() {
    assert_eq!(
        check_protocol_version("a\"b").unwrap_err().display(),
        "bridge handshake failed: unsupported protocol_version \"a\\\"b\" (expected sdk.v1)"
    );
}

#[test]
fn sidecar_is_given_workspace_and_key() {
    assert_eq!(bridge_args("/w"), vec!["--workspace", "/w"]);
    assert_eq!(
        bridge_env("k"),
        vec![
            ("CURSOR_API_KEY".to_string(), "k".to_string()),
            ("CURSOR_SDK_CLIENT_LANGUAGE".to_string(), "rust".to_string()),
        ]
    );
    assert_eq!(
        spawn_error("/b", "denied").display(),
        "bridge handshake failed: failed to spawn /b: denied"
    );
}

#[test]
fn ready_watch_decides_on_the_first_ready_line() {
    let mut watch = ReadyWatch::new();
    assert!(watch.on_line("booting", decode_ready).is_none());
    assert!(watch.on_line(SAMPLE, decode_ready).unwrap().is_ok());
    assert!(watch.on_line(SAMPLE, decode_ready).is_none());
    assert!(watch.on_line("cursor-sdk-bridge ready nope", decode_ready).is_none());
    assert!(watch.on_end().is_none());
    let mut bad = ReadyWatch::new();
    assert!(bad.on_line("cursor-sdk-bridge ready nope", decode_ready).unwrap().is_err());
    assert!(bad.on_line(SAMPLE, decode_ready).is_none());
}

#[test]
fn ready_watch_keeps_some_output() {
    let mut watch = ReadyWatch::new();
    assert!(watch.on_line("boom", decode_ready).is_none());
    assert_eq!(
        watch.on_end().unwrap().display(),
        "bridge handshake failed: bridge exited before ready line. stderr:\nboom\n"
    );
    let long = "x".repeat(8_190);
    let mut full = ReadyWatch::new();
    let _ = full.on_line(&long, decode_ready);
    let _ = full.on_line("kept", decode_ready);
    let _ = full.on_line("dropped", decode_ready);
    let shown = full.on_end().unwrap().display();
    assert!(shown.ends_with("x\nkept\n"));
}

#[test]
fn waiting_for_the_ready_line_can_fail() {
    assert!(await_ready(ReadyOutcome::Decided(Ok(ready(
        r#"{"schemaVersion":1,"transport":"tcp","protocol":"connect"}"#
    ))))
    .is_ok());
    assert_eq!(
        await_ready(ReadyOutcome::Closed).unwrap_err().display(),
        "bridge handshake failed: ready-line channel closed"
    );
    assert_eq!(
        await_ready(ReadyOutcome::TimedOut).unwrap_err().display(),
        "bridge handshake failed: timed out waiting for cursor-sdk-bridge ready line"
    );
}

#[test]
fn bearer_comes_from_the_line_or_the_file() {
    let inline = ready(
        r#"{"schemaVersion":1,"transport":"tcp","protocol":"connect","authToken":" t ","authTokenFile":"/f"}"#,
    );
    assert_eq!(read_bearer(&inline, |_| panic!("not read")).unwrap(), "t");
    let file = ready(
        r#"{"schemaVersion":1,"transport":"tcp","protocol":"connect","authToken":" ","authTokenFile":"/f","port":1}"#,
    );
    let read = |path: &str| {
        assert_eq!(path, "/f");
        Ok(" secret\n".to_string())
    };
    assert_eq!(read_bearer(&file, read).unwrap(), "secret");
    let endpoint = bridge_endpoint(&file, read).unwrap();
    assert_eq!(endpoint.bearer, "secret");
    assert_eq!(endpoint.url, "http://127.0.0.1:1");
    assert_eq!(
        read_bearer(&file, |_| Ok("  ".to_string())).unwrap_err().display(),
        "bridge handshake failed: auth token file is empty"
    );
    assert_eq!(
        read_bearer(&file, |_| Err("denied".to_string())).unwrap_err().display(),
        "bridge handshake failed: failed to read auth token file /f: denied"
    );
    let none = ready(r#"{"schemaVersion":1,"transport":"tcp","protocol":"connect"}"#);
    assert_eq!(
        bridge_endpoint(&none, |_| panic!("not read")).unwrap_err().display(),
        "bridge handshake failed: ready line missing authTokenFile"
    );
    assert_eq!(
        bridge_endpoint(
            &ready(
                r#"{"schemaVersion":1,"transport":"tcp","protocol":"connect","authToken":"t"}"#
            ),
            |_| panic!("not read")
        )
        .unwrap_err()
        .display(),
        "bridge handshake failed: ready line missing url and port"
    );
}

#[test]
fn live_bridges_are_verified() {
    verify_live_bridge(|| Ok("pong".to_string()), || Ok("sdk.v1".to_string())).unwrap();
    assert_eq!(
        verify_live_bridge(
            || Err(CursorSdkError::Http("down".to_string())),
            || panic!("no version without a ping")
        )
        .unwrap_err()
        .display(),
        "bridge handshake failed: Ping after spawn failed: down"
    );
    assert_eq!(
        verify_live_bridge(
            || Ok(String::new()),
            || Err(CursorSdkError::Http("down".to_string()))
        )
        .unwrap_err()
        .display(),
        "bridge handshake failed: GetVersion after spawn failed: down"
    );
    assert_eq!(
        verify_live_bridge(|| Ok(String::new()), || Ok("sdk.v2".to_string()))
            .unwrap_err()
            .display(),
        "bridge handshake failed: unsupported protocol_version \"sdk.v2\" (expected sdk.v1)"
    );
}

// -- transport --------------------------------------------------------------

fn decode_text(payload: &Vec<u8>) -> Result<String, String> {
    String::decode(payload.as_slice()).map_err(|e| e.to_string())
}

fn read_end(payload: &Vec<u8>) -> Option<ConnectErrorBody> {
    let v: Value = serde_json::from_slice(payload).ok()?;
    read_error_value(v.get("error")?)
}

fn read_error(payload: &Vec<u8>) -> Option<ConnectErrorBody> {
    let v: Value = serde_json::from_slice(payload).ok()?;
    read_error_value(&v)
}

fn read_error_value(v: &Value) -> Option<ConnectErrorBody> {
    let text = |key: &str| v.get(key).and_then(Value::as_str).unwrap_or("").to_string();
    Some(ConnectErrorBody {
        code: text("code"),
        message: text("message"),
        details: v.get("details").and_then(Value::as_array).cloned().unwrap_or_default(),
    })
}

#[test]
fn frame_round_trip() {
    let msg = "hi".to_string();
    let framed = encode_connect_frame(0, &msg.encode_to_vec());
    let frames = split_frames(&framed).unwrap();
    assert_eq!(frames.len(), 1);
    assert_eq!(frames[0].0, 0);
    let decoded = decode_text(&frames[0].1).unwrap();
    assert_eq!(decoded, "hi");
}

#[test]
fn end_stream_error() {
    let err = parse(r#"{"error":{"code":"unauthenticated","message":"no token"}}"#);
    let framed = encode_connect_frame(0x02, &err.to_string().into_bytes());
    let result = decode_connect_stream("svc", "M", &framed, decode_text, read_end);
    match result.unwrap_err() {
        CursorSdkError::Rpc { code, message, .. } => {
            assert_eq!(code, "unauthenticated");
            assert_eq!(message, "no token");
        }
        other => panic!("{other:?}"),
    }
}

#[test]
fn empty_keepalive_skipped() {
    let mut body = encode_connect_frame(0, &Vec::new());
    let msg = "ok".to_string();
    body.extend_from_slice(&encode_connect_frame(0, &msg.encode_to_vec()));
    body.extend_from_slice(&encode_connect_frame(0x02, &b"{}".to_vec()));
    let msgs = decode_connect_stream("svc", "M", &body, decode_text, read_end).unwrap();
    assert_eq!(msgs.len(), 1);
    assert_eq!(msgs[0], "ok");
}

#[test]
fn frames_are_exact() {
    assert_eq!(encode_connect_frame(3, &b"ab".to_vec()), b"\x03\x00\x00\x00\x02ab");
    let long = vec![7u8; 0x01_02_03];
    let framed = encode_connect_frame(0, &long);
    assert_eq!(&framed[..5], b"\x00\x00\x01\x02\x03");
    let mut two = framed.clone();
    two.extend_from_slice(&encode_connect_frame(1, &Vec::new()));
    two.extend_from_slice(b"\x00\x00\x00\x00\x09cut");
    let frames = split_frames(&two).unwrap();
    assert_eq!(frames.len(), 2);
    assert_eq!(frames[0], (0, long));
    assert_eq!(frames[1], (1, Vec::new()));
}

#[test]
fn streams_can_be_cut_or_garbled() {
    let mut body = encode_connect_frame(0, &"a".to_string().encode_to_vec());
    body.extend_from_slice(b"\x00\x00");
    let msgs = decode_connect_stream("s", "M", &body, decode_text, read_end).unwrap();
    assert_eq!(msgs, vec!["a"]);
    body.extend_from_slice(b"\x00\x00\x05x");
    assert_eq!(
        decode_connect_stream("s", "M", &body, decode_text, read_end).unwrap_err().display(),
        "s/M: truncated connect frame"
    );
    let garbled = encode_connect_frame(0, &b"\x0a\xff".to_vec());
    assert!(matches!(
        decode_connect_stream("s", "M", &garbled, decode_text, read_end).unwrap_err(),
        CursorSdkError::Prost(_)
    ));
    let mut ended = encode_connect_frame(0x02, &Vec::new());
    ended.extend_from_slice(b"\x00\x00\x00\x00\x09");
    let none = decode_connect_stream("s", "M", &ended, decode_text, |_| panic!("empty end")).unwrap();
    assert!(none.is_empty());
}

#[test]
fn connect_errors_carry_a_request_id() {
    let err = ConnectErrorBody {
        code: String::new(),
        message: "m".to_string(),
        details: vec![
            parse(r#"{"requestId":1,"request_id":"skipped"}"#),
            parse(r#"{"request_id":"r-2"}"#),
            parse(r#"{"requestId":"r-3"}"#),
        ],
    };
    match connect_error("svc", "M", &err) {
        CursorSdkError::Rpc { method, code, message, request_id } => {
            assert_eq!(method, "svc/M");
            assert_eq!(code, "unknown");
            assert_eq!(message, "m");
            assert_eq!(request_id.as_deref(), Some("r-2"));
        }
        other => panic!("{other:?}"),
    }
}

#[test]
fn failed_requests_report_their_body() {
    let body = br#"{"code":"not_found","message":"gone"}"#.to_vec();
    assert_eq!(
        connect_error_from_body("s", "M", &body, read_error).display(),
        "connect rpc s/M failed (not_found): gone"
    );
    let long = vec![b'y'; 600];
    match connect_error_from_body("s", "M", &long, |_| None) {
        CursorSdkError::Rpc { code, message, request_id, .. } => {
            assert_eq!(code, "unknown");
            assert_eq!(message, "y".repeat(500));
            assert_eq!(request_id, None);
        }
        other => panic!("{other:?}"),
    }
    let invalid = connect_error_from_body("s", "M", &b"a\xffb".to_vec(), |_| None);
    assert_eq!(invalid.display(), "connect rpc s/M failed (unknown): a\u{fffd}b");
}

#[test]
fn replies_follow_the_status() {
    let body = "ok".to_string().encode_to_vec();
    assert_eq!(
        unary_reply("s", "M", true, &body, decode_text, |_| panic!("no error")).unwrap(),
        "ok"
    );
    assert!(unary_reply("s", "M", false, &body, decode_text, |_| None).is_err());
    assert!(matches!(
        unary_reply("s", "M", true, &b"\x0a\xff".to_vec(), decode_text, |_| None).unwrap_err(),
        CursorSdkError::Prost(_)
    ));
    let framed = encode_connect_frame(0, &body);
    assert_eq!(
        stream_reply("s", "M", true, &framed, decode_text, read_end, read_error).unwrap(),
        vec!["ok"]
    );
    assert!(stream_reply("s", "M", false, &framed, decode_text, read_end, read_error).is_err());
    assert_eq!(rpc_url("http://h", "svc", "M"), "http://h/svc/M");
    assert_eq!(authorization("t"), "Bearer t");
}

// -- client -----------------------------------------------------------------

fn sdk(kind: &str, fields: Vec<(&str, ProtoValue)>) -> RunMessage {
    RunMessage::Sdk {
        kind: kind.to_string(),
        message: Some(fields.into_iter().map(|(k, v)| (k.to_string(), v)).collect()),
    }
}

fn text(s: &str) -> ProtoValue {
    ProtoValue::Text(s.to_string())
}

#[test]
fn runs_are_gathered() {
    let run = gather_run(&vec![
        sdk("status", vec![("text", text("thinking"))]),
        sdk("assistant", vec![("text", text("a"))]),
        sdk("assistant_message", vec![("message", text("b"))]),
        sdk("status", vec![("message", ProtoValue::Bool(true))]),
        sdk("tool", vec![("text", text("ignored"))]),
        sdk("assistant", vec![("text", ProtoValue::Other), ("message", text("no"))]),
        RunMessage::Other,
        RunMessage::Done { run_id: "d".to_string() },
    ]);
    assert_eq!(run.text, "a\nb");
    assert_eq!(run.status, "true");
    assert_eq!(run.run_id, "d");
    assert_eq!(run.error, None);
}

#[test]
fn results_stand_for_the_run() {
    let run = gather_run(&vec![
        sdk("assistant", vec![("text", text("a"))]),
        RunMessage::Result {
            run_id: "r".to_string(),
            error_code: Some("oops".to_string()),
            result: Some("final".to_string()),
        },
        RunMessage::Result {
            run_id: "r2".to_string(),
            error_code: Some(String::new()),
            result: Some(String::new()),
        },
        RunMessage::Done { run_id: "late".to_string() },
    ]);
    assert_eq!(run.text, "final");
    assert_eq!(run.run_id, "r2");
    assert_eq!(run.error.as_deref(), Some("oops"));
}

#[test]
fn silent_runs_are_waited_for() {
    let silent = vec![RunMessage::Done { run_id: "r".to_string() }];
    let waited = send_result(&silent, |id| {
        assert_eq!(id, "r");
        Ok("late".to_string())
    });
    assert_eq!(waited.text, "late");
    let failed = send_result(&silent, |_| Err(CursorSdkError::Http("x".to_string())));
    assert_eq!(failed.text, "");
    assert_eq!(failed.run_id, "r");
    let unknown = send_result(&Vec::new(), |_| panic!("no run id"));
    assert_eq!(unknown.run_id, "");
    let spoken = vec![
        sdk("assistant", vec![("text", text("a"))]),
        RunMessage::Done { run_id: "r".to_string() },
    ];
    assert_eq!(send_result(&spoken, |_| panic!("has text")).text, "a");
}

#[test]
fn payload_values_are_shown_as_text() {
    assert_eq!(
        proto_value_string(&ProtoValue::Number("1.5".to_string())).as_deref(),
        Some("1.5")
    );
    assert_eq!(proto_value_string(&ProtoValue::Bool(false)).as_deref(), Some("false"));
    assert_eq!(proto_value_string(&ProtoValue::Other), None);
    assert_eq!(struct_text(&None), None);
    assert_eq!(struct_text(&Some(Vec::new())), None);
}

// -- peers-mcp attach -------------------------------------------------------

fn sample_identity() -> PeersMcpIdentity {
    PeersMcpIdentity {
        grok_bin: "/usr/bin/grok".to_string(),
        session_id: "sess".to_string(),
        peer_name: "cursor".to_string(),
        cwd: "/tmp/ws".to_string(),
        grok_home: "/tmp/grok-home".to_string(),
    }
}

fn parent_env() -> Vec<(String, String)> {
    [("PATH", "/bin"), ("HOME", "/home/u"), ("XAI_API_KEY", "x"), ("GROK_HOME", "/other")]
        .iter()
        .map(|(k, v)| (k.to_string(), v.to_string()))
        .collect()
}

fn lookup<'a>(env: &'a [(String, String)], key: &str) -> Option<&'a str> {
    env.iter().rev().find(|(k, _)| k == key).map(|(_, v)| v.as_str())
}

#[test]
fn peers_mcp_stdio_config() {
    let servers = peers_mcp_servers(&Some(sample_identity()), &parent_env());
    let (_, stdio) = servers.iter().find(|(name, _)| name == "grok-peers").expect("grok-peers server");
    assert_eq!(stdio.command, "/usr/bin/grok");
    assert_eq!(stdio.args, vec!["peers-mcp"]);
    assert_eq!(stdio.cwd, "/tmp/ws");
    assert_eq!(lookup(&stdio.env, "GROK_PEER_SESSION_ID"), Some("sess"));
    assert_eq!(lookup(&stdio.env, "GROK_PEER_NAME"), Some("cursor"));
    assert_eq!(lookup(&stdio.env, "GROK_HOME"), Some("/tmp/grok-home"));
    assert!(lookup(&stdio.env, "PATH").is_some());
    assert!(lookup(&stdio.env, "HOME").is_some());
    assert!(peers_mcp_servers(&None, &parent_env()).is_empty());
}

#[test]
fn child_environment_is_closed() {
    let env = stdio_child_env(&sample_identity(), &parent_env());
    assert_eq!(lookup(&env, "PATH"), Some("/bin"));
    assert_eq!(lookup(&env, "XAI_API_KEY"), None);
    assert_eq!(lookup(&env, "LANG"), None);
    assert_eq!(env.len(), 5);
    let bare = stdio_child_env(&sample_identity(), &Vec::new());
    assert_eq!(bare.len(), 3);
    let seat = PeersMcpIdentity::for_seat(
        "sess".to_string(),
        "cursor".to_string(),
        "/tmp/ws".to_string(),
        "/usr/bin/grok".to_string(),
        "/tmp/grok-home".to_string(),
    );
    assert_eq!(stdio_child_env(&seat, &Vec::new()), bare);
}

fn config(command: &str, cwd: &str) -> StdioMcpServerConfig {
    StdioMcpServerConfig {
        command: command.to_string(),
        args: vec!["peers-mcp".to_string()],
        env: Vec::new(),
        cwd: cwd.to_string(),
    }
}

/// Plays a child that answers with the given lines.
fn preflight(command: &str, lines: &[&str]) -> Result<(), String> {
    let (mut handshake, first) = Handshake::start();
    assert!(first.contains("\"method\":\"initialize\""));
    let mut replies = lines.iter();
    let outcome = loop {
        match handshake.on_line(replies.next().copied().unwrap_or("")) {
            HandshakeStep::Write(written) => {
                assert_eq!(written.len(), 2);
                assert!(written[0].contains("notifications/initialized"));
                assert!(written[1].contains("tools/list"));
                assert!(written.iter().all(|line| line.ends_with('\n')));
            }
            HandshakeStep::Ready => break Ok(()),
            HandshakeStep::Failed(why) => break Err(why),
        }
    };
    preflight_result(&config(command, "/tmp"), PreflightOutcome::Answered(outcome))
}

const INIT_REPLY: &str = r#"{"jsonrpc":"2.0","id":1,"result":{"protocolVersion":"2024-11-05","capabilities":{"tools":{}},"serverInfo":{"name":"grok-peers","version":"0.1.0"}}}"#;
const TOOLS_REPLY: &str = r#"{"jsonrpc":"2.0","id":2,"result":{"tools":[{"name":"list_peers"},{"name":"send_message"}]}}"#;

#[test]
fn preflight_accepts_ndjson_child() {
    let init = format!("{INIT_REPLY}\n");
    let tools = format!("{TOOLS_REPLY}\n");
    preflight("fake-grok", &[&init, &tools]).unwrap();
}

#[test]
fn preflight_rejects_missing_binary() {
    let err = preflight_result(
        &config("/no/such/grok-peers-mcp-bin", "/tmp"),
        PreflightOutcome::NotSpawned("No such file or directory".to_string()),
    )
    .unwrap_err();
    assert!(
        err.contains("failed to spawn") || err.contains("/no/such/grok-peers-mcp-bin"),
        "{err}"
    );
}

#[test]
fn preflight_rejects_content_length_child() {
    let err = preflight("fake-grok", &["Content-Length: 71\r\n"]).unwrap_err();
    assert!(err.contains("Content-Length") || err.contains("non-JSON"), "{err}");
}

#[test]
fn preflight_says_what_failed() {
    assert_eq!(
        preflight("g", &[]).unwrap_err(),
        "peers-mcp at g failed handshake: peers-mcp closed stdout before answering"
    );
    assert_eq!(
        preflight("g", &[" \n"]).unwrap_err(),
        "peers-mcp at g failed handshake: peers-mcp wrote a blank line"
    );
    assert!(preflight("g", &["oops\n"]).unwrap_err().ends_with("): oops"));
    assert_eq!(
        preflight("g", &["{\"error\":1}"]).unwrap_err(),
        "peers-mcp at g failed handshake: initialize error: {\"error\":1}"
    );
    assert_eq!(
        preflight("g", &["{}"]).unwrap_err(),
        "peers-mcp at g failed handshake: initialize did not identify grok-peers: {}"
    );
    assert_eq!(
        preflight("g", &[INIT_REPLY, "{}"]).unwrap_err(),
        "peers-mcp at g failed handshake: tools/list missing tools: {}"
    );
    assert_eq!(
        preflight("g", &[INIT_REPLY, r#"{"result":{"tools":[{"name":"x"}]}}"#]).unwrap_err(),
        "peers-mcp at g failed handshake: tools/list missing peer tools: [\"x\"]"
    );
    assert_eq!(
        preflight_result(&config("g", "/c"), PreflightOutcome::TimedOut).unwrap_err(),
        "peers-mcp at g did not answer initialize/tools/list within 8s"
    );
    assert_eq!(
        preflight_result(&config("g", "/c"), PreflightOutcome::NotSpawned("e".to_string()))
            .unwrap_err(),
        "failed to spawn peers-mcp at g (cwd /c): e"
    );
}

#[test]
fn replies_are_checked_one_by_one() {
    assert!(check_initialize_reply(&parse(INIT_REPLY)).is_ok());
    assert!(check_tools_reply(&parse(TOOLS_REPLY)).is_ok());
    assert_eq!(read_ndjson(" {\"a\":1}\r\n").unwrap(), parse("{\"a\":1}"));
}
