use grok_peers::inbox::{InboxEnvelope, InboxSendError};
use grok_peers::mcp::{
    handle_mcp_message, reply_is_possible, McpReply, PeerIdentity, LIST_PEERS, PROTOCOL_VERSION,
    SEND_MESSAGE,
};
use grok_peers::registry::{PeerRecord, Timestamp};
use grok_peers::replies::{missing_tools, tool_names};
use grok_peers::selftest::{check_initialize, check_line, check_tools, selftest_peers_mcp};
use grok_peers::stdio;
use grok_peers::stdio::{read_body, write_mcp_message, MessageReader, ReadStep};
use serde_json::Value;
use tokio::io::{AsyncBufReadExt, AsyncReadExt};

fn parse(text: &str) -> Value {
    serde_json::from_str(text).unwrap()
}

fn id() -> PeerIdentity {
    PeerIdentity { session_id: "self".to_string(), name: "cursor".to_string() }
}

fn peers() -> Vec<PeerRecord> {
    vec![
        PeerRecord {
            session_id: "self".to_string(),
            name: "cursor".to_string(),
            cwd: "/w/me".to_string(),
            pid: 1,
            inbox_path: "/tmp/self.sock".to_string(),
            updated_at: Timestamp { secs: 1, nanos: 0 },
            note: None,
        },
        PeerRecord {
            session_id: "s-api".to_string(),
            name: "api".to_string(),
            cwd: "/w/api".to_string(),
            pid: 1,
            inbox_path: "/tmp/s-api.sock".to_string(),
            updated_at: Timestamp { secs: 1, nanos: 0 },
            note: Some("cursor:composer-2".to_string()),
        },
    ]
}

fn handle(text: &str) -> McpReply {
    handle_mcp_message(&parse(text), &id(), || Ok(peers()), |_, _| Ok(()))
}

fn answer(text: &str) -> Value {
    handle(text).response.unwrap()
}

fn names_of(listed: &Value) -> Vec<&str> {
    listed["result"]["tools"]
        .as_array()
        .unwrap()
        .iter()
        .filter_map(|t| t["name"].as_str())
        .collect()
}

/// Reads one message from a stream of bytes.
fn read_mcp_message(input: &mut &[u8]) -> Result<Option<Value>, String> {
    let (read, end) = stdio::read_mcp_message(&input.to_vec(), 0);
    *input = &input[end..];
    read
}

#[test]
fn initialize_and_list_tools() {
    let init = answer(r#"{"jsonrpc":"2.0","id":1,"method":"initialize","params":{}}"#);
    assert_eq!(init["result"]["serverInfo"]["name"], "grok-peers");

    let listed = answer(r#"{"jsonrpc":"2.0","id":2,"method":"tools/list"}"#);
    let names = names_of(&listed);
    assert!(names.contains(&LIST_PEERS));
    assert!(names.contains(&SEND_MESSAGE));
}

#[test]
fn notification_has_no_response() {
    let reply = handle(r#"{"jsonrpc":"2.0","method":"notifications/initialized"}"#);
    assert!(reply.response.is_none());
}

#[test]
fn send_message_description_discourages_chatter() {
    let listed = answer(r#"{"jsonrpc":"2.0","id":2,"method":"tools/list"}"#);
    let send = listed["result"]["tools"]
        .as_array()
        .unwrap()
        .iter()
        .find(|t| t["name"] == SEND_MESSAGE)
        .expect("send_message");
    let desc = send["description"].as_str().unwrap();
    assert!(desc.contains("Do not send greetings"));
    assert!(desc.contains("check-ins"));
    assert!(!desc.contains("tells you to reply with send_message"));
}

#[test]
fn send_blank_is_error() {
    let resp = answer(
        r#"{"jsonrpc":"2.0","id":3,"method":"tools/call","params":{"name":"send_message","arguments":{"to":"api","message":"  "}}}"#,
    );
    assert_eq!(resp["result"]["isError"], true);
}

#[test]
fn write_is_single_ndjson_line() {
    let msg = parse(r#"{"jsonrpc":"2.0","id":1,"result":{"ok":true}}"#);
    let text = write_mcp_message(&msg);
    assert!(!text.contains("Content-Length"), "{text}");
    assert!(text.ends_with('\n'), "{text}");
    assert_eq!(text.matches('\n').count(), 1, "{text}");
    let parsed: Value = serde_json::from_str(text.trim_end()).unwrap();
    assert_eq!(parsed["id"], 1);
}

#[test]
fn read_ndjson_line() {
    let mut input: &[u8] = b"{\"jsonrpc\":\"2.0\",\"id\":1,\"method\":\"ping\"}\n";
    let msg = read_mcp_message(&mut input).unwrap().unwrap();
    assert_eq!(msg["method"], "ping");
}

#[test]
fn read_legacy_content_length() {
    let body = br#"{"jsonrpc":"2.0","id":1,"method":"ping"}"#;
    let mut framed = format!("Content-Length: {}\r\n\r\n", body.len()).into_bytes();
    framed.extend_from_slice(body);
    let mut input: &[u8] = &framed;
    let msg = read_mcp_message(&mut input).unwrap().unwrap();
    assert_eq!(msg["method"], "ping");
}

#[test]
fn ndjson_round_trip_two_messages() {
    let text = format!(
        "{}\n{}\n",
        r#"{"jsonrpc":"2.0","id":1,"method":"initialize","params":{}}"#,
        r#"{"jsonrpc":"2.0","id":2,"method":"tools/list"}"#,
    );
    let mut input: &[u8] = text.as_bytes();
    let mut out = String::new();
    for _ in 0..2 {
        let msg = read_mcp_message(&mut input).unwrap().unwrap();
        let reply = handle_mcp_message(&msg, &id(), || Ok(peers()), |_, _| Ok(()));
        out.push_str(&write_mcp_message(&reply.response.unwrap()));
    }
    let lines: Vec<&str> = out.lines().collect();
    assert_eq!(lines.len(), 2);
    let first = parse(lines[0]);
    let second = parse(lines[1]);
    assert_eq!(first["id"], 1);
    assert_eq!(first["result"]["serverInfo"]["name"], "grok-peers");
    assert_eq!(second["id"], 2);
    let names = names_of(&second);
    assert!(names.contains(&LIST_PEERS));
    assert!(names.contains(&SEND_MESSAGE));
}

#[test]
fn initialize_echoes_supported_version() {
    let init = answer(
        r#"{"jsonrpc":"2.0","id":1,"method":"initialize","params":{"protocolVersion":"2025-06-18"}}"#,
    );
    assert_eq!(init["result"]["protocolVersion"], "2025-06-18");
}

#[test]
fn initialize_falls_back_for_unknown_version() {
    let init = answer(
        r#"{"jsonrpc":"2.0","id":1,"method":"initialize","params":{"protocolVersion":"1999-01-01"}}"#,
    );
    assert_eq!(init["result"]["protocolVersion"], PROTOCOL_VERSION);
}

#[test]
fn selftest_passes() {
    selftest_peers_mcp().unwrap();
}

#[test]
fn identity_comes_from_the_environment() {
    let full = PeerIdentity::from_env(Some("s".to_string()), Some(" api ".to_string()));
    assert_eq!((full.session_id.as_str(), full.name.as_str()), ("s", "api"));
    let blank = PeerIdentity::from_env(None, Some("  ".to_string()));
    assert_eq!((blank.session_id.as_str(), blank.name.as_str()), ("", "unknown"));
    assert_eq!(PeerIdentity::from_env(None, None).name, "unknown");
}

#[test]
fn responses_are_exact() {
    assert_eq!(
        answer(r#"{"id":"x","method":"ping"}"#),
        parse(r#"{"jsonrpc":"2.0","id":"x","result":{}}"#)
    );
    assert_eq!(
        answer(r#"{"id":null,"method":"nope"}"#),
        parse(
            r#"{"jsonrpc":"2.0","id":null,"error":{"code":-32601,"message":"Method not found: nope"}}"#
        )
    );
    assert_eq!(
        answer(r#"{"id":1}"#)["error"]["message"],
        "Method not found: "
    );
    assert_eq!(
        answer(r#"{"id":1,"method":"initialize"}"#)["result"],
        parse(
            r#"{"protocolVersion":"2024-11-05","capabilities":{"tools":{}},"serverInfo":{"name":"grok-peers","version":"0.1.0"}}"#
        )
    );
    let listed = answer(r#"{"id":2,"method":"tools/list"}"#);
    assert_eq!(
        listed["result"]["tools"][1]["inputSchema"]["required"],
        parse(r#"["to","message"]"#)
    );
    assert_eq!(
        listed["result"]["tools"][0]["inputSchema"]["properties"]["filter"]["type"],
        "string"
    );
}

#[test]
fn list_peers_shows_the_others_with_their_notes() {
    let resp = answer(
        r#"{"id":1,"method":"tools/call","params":{"name":"list_peers","arguments":{"filter":"API"}}}"#,
    );
    assert_eq!(resp["result"]["isError"], false);
    let text = resp["result"]["content"][0]["text"].as_str().unwrap();
    assert_eq!(
        parse(text),
        parse(
            r#"{"peers":[{"name":"api","session_id":"s-api","cwd":"/w/api","note":"cursor:composer-2"}],"self_name":"cursor","self_session_id":"self"}"#
        )
    );
    let none = answer(
        r#"{"id":1,"method":"tools/call","params":{"name":"list_peers","arguments":{"filter":"zz"}}}"#,
    );
    assert!(none["result"]["content"][0]["text"].as_str().unwrap().contains("\"peers\":[]"));
    let reply = handle_mcp_message(
        &parse(r#"{"id":1,"method":"tools/call","params":{"name":"list_peers"}}"#),
        &id(),
        || Err("locked".to_string()),
        |_, _| Ok(()),
    );
    let failed = reply.response.unwrap();
    assert_eq!(failed["result"]["isError"], true);
    assert_eq!(failed["result"]["content"][0]["text"], "Failed to list live peers: locked");
}

#[test]
fn delivered_messages_are_stamped() {
    let call = r#"{"id":9,"method":"tools/call","params":{"name":"send_message","arguments":{"to":" API","message":"hi"}}}"#;
    let reply = handle(call);
    let sent = reply.sent.unwrap();
    assert_eq!(sent.to, " API");
    assert_eq!(sent.to_name, "api");
    assert_eq!(sent.to_session_id, "s-api");
    let resp = reply.response.unwrap();
    assert_eq!(resp["id"], 9);
    assert_eq!(resp["result"]["isError"], false);
    assert_eq!(
        parse(resp["result"]["content"][0]["text"].as_str().unwrap()),
        parse(
            r#"{"status":"delivered","to_name":"api","to_session_id":"s-api","detail":"Message delivered to peer 'api'."}"#
        )
    );
    let failed = handle_mcp_message(
        &parse(call),
        &id(),
        || Ok(peers()),
        |_path: &str, _env: &InboxEnvelope| Err(InboxSendError::Write("gone".to_string())),
    );
    assert!(failed.sent.is_none());
    assert_eq!(failed.response.unwrap()["result"]["isError"], true);
}

#[test]
fn unknown_tools_are_errors() {
    let resp = answer(r#"{"id":1,"method":"tools/call","params":{"name":"rm"}}"#);
    assert_eq!(resp["result"]["isError"], true);
    assert_eq!(resp["result"]["content"][0]["text"], "Unknown tool: rm");
    let nameless = answer(r#"{"id":1,"method":"tools/call"}"#);
    assert_eq!(nameless["result"]["content"][0]["text"], "Unknown tool: ");
}

#[test]
fn header_lines_are_read_leniently() {
    let mut extra: &[u8] = b"X: 1\r\ncontent-LENGTH :2\r\nContent-Length: x\r\nCONTENT-length:+2\n\n{}rest";
    assert_eq!(read_mcp_message(&mut extra).unwrap().unwrap(), parse("{}"));
    assert_eq!(extra, b"rest");
    let mut missing: &[u8] = b"X: 1\r\n\r\n";
    assert_eq!(read_mcp_message(&mut missing).unwrap_err(), "missing Content-Length");
    let mut empty: &[u8] = b"";
    assert!(read_mcp_message(&mut empty).unwrap().is_none());
    let mut broken: &[u8] = b"{nope\n";
    assert!(read_mcp_message(&mut broken).is_err());
    assert!(read_body(&b"[".to_vec()).is_err());
}

#[test]
fn messages_are_read_one_after_the_other() {
    let first = parse(r#"{"id":1,"text":"h\u00e9\nllo"}"#);
    let framed = "[\n\"\u{20ac}\"\n]";
    let mut stream = write_mcp_message(&first).into_bytes();
    stream.extend(format!("Content-Length: {}\r\n\r\n{framed}", framed.len()).into_bytes());
    stream.extend(b"{\"id\":3}".to_vec());
    let (one, after_one) = stdio::read_mcp_message(&stream, 0);
    assert_eq!(one.unwrap().unwrap(), first);
    let (two, after_two) = stdio::read_mcp_message(&stream, after_one);
    assert_eq!(two.unwrap().unwrap(), parse(framed));
    let (three, after_three) = stdio::read_mcp_message(&stream, after_two);
    assert_eq!(three.unwrap().unwrap(), parse(r#"{"id":3}"#));
    assert_eq!(after_three, stream.len());
    let (end, at) = stdio::read_mcp_message(&stream, after_three);
    assert_eq!(end, Ok(None));
    assert_eq!(at, stream.len());
}

#[test]
fn broken_streams_are_reported() {
    let short = b"Content-Length: 3\r\n\r\n{}".to_vec();
    assert_eq!(stdio::read_mcp_message(&short, 0), (Err("early eof".to_string()), short.len()));
    let bytes = b"\xff\n{}\n".to_vec();
    let (bad, after) = stdio::read_mcp_message(&bytes, 0);
    assert_eq!(bad.unwrap_err(), "invalid utf-8 sequence of 1 bytes from index 0");
    assert_eq!(stdio::read_mcp_message(&bytes, after), (Ok(Some(parse("{}"))), bytes.len()));
    let body = b"Content-Length: 3\n\n\"\xff\"".to_vec();
    assert!(stdio::read_mcp_message(&body, 0).0.is_err());
}

#[test]
fn faults_are_worded_as_tokio_words_them() {
    let runtime = tokio::runtime::Builder::new_current_thread().build().unwrap();
    for bytes in [b"\xff\n".to_vec(), b"ab\xe2\x82\n".to_vec(), b"{\"a\":\"\xc3".to_vec()] {
        let mut input: &[u8] = &bytes;
        let mut line = String::new();
        let fault = runtime.block_on(input.read_line(&mut line)).unwrap_err();
        assert_eq!(stdio::read_mcp_message(&bytes, 0).0, Err(fault.to_string()));
    }
    let mut short: &[u8] = b"{}";
    let fault = runtime.block_on(short.read_exact(&mut [0u8; 3])).unwrap_err();
    let framed = b"Content-Length: 3\r\n\r\n{}".to_vec();
    assert_eq!(stdio::read_mcp_message(&framed, 0).0, Err(fault.to_string()));
}

#[test]
fn header_lines_are_collected_up_to_the_body() {
    let mut reader = MessageReader::new();
    assert!(matches!(reader.on_line("Content-Length: 2\r\n"), ReadStep::NextLine));
    assert!(matches!(reader.on_line("Content-Length: 9\r\n"), ReadStep::NextLine));
    assert!(matches!(reader.on_line("\r\n"), ReadStep::Body(2)));
    assert!(matches!(reader.on_line("{}\n"), ReadStep::Message(_)));
    assert!(matches!(reader.on_line("\n"), ReadStep::Failed(_)));
}

#[test]
fn written_text_is_escaped_onto_one_line() {
    let msg = parse(r#"{"text":"a\nb","n":[1,null,-2]}"#);
    let line = write_mcp_message(&msg);
    assert_eq!(line, "{\"n\":[1,null,-2],\"text\":\"a\\nb\"}\n");
    assert_eq!(write_mcp_message(&parse(r#"["\u000B\u001F",true]"#)), "[\"\\u000b\\u001f\",true]\n");
    let mut input: &[u8] = line.as_bytes();
    assert_eq!(read_mcp_message(&mut input).unwrap().unwrap(), msg);
}

#[test]
fn selftest_checks_find_faults() {
    assert_eq!(
        check_line("Content-Length: 2\r\n\r\n{}").unwrap_err(),
        "stdio MCP still emits Content-Length framing"
    );
    assert_eq!(
        check_line("{}").unwrap_err(),
        "stdio MCP response is not a single NDJSON line"
    );
    assert_eq!(
        check_line("{}\n{}\n").unwrap_err(),
        "stdio MCP response is not a single NDJSON line"
    );
    assert!(check_line("{\n").is_err());
    assert!(check_line("{}\n").is_ok());
    assert_eq!(check_initialize(None).unwrap_err(), "initialize produced no response");
    assert_eq!(
        check_initialize(Some(parse(r#"{"result":{"protocolVersion":"x"}}"#))).unwrap_err(),
        "initialize did not echo protocolVersion: {\"result\":{\"protocolVersion\":\"x\"}}"
    );
    assert_eq!(check_tools(None).unwrap_err(), "tools/list produced no response");
    assert_eq!(
        check_tools(Some(parse(r#"{"result":{}}"#))).unwrap_err(),
        "tools/list missing tools array"
    );
    assert_eq!(
        check_tools(Some(parse(r#"{"result":{"tools":[{"name":"a\"b"},{},{"name":"c"}]}}"#)))
            .unwrap_err(),
        "tools/list missing peer tools: [\"a\\\"b\", \"c\"]"
    );
    assert_eq!(missing_tools(&Vec::new()), "tools/list missing peer tools: []");
    assert!(tool_names(&parse(r#"{"result":{"tools":{}}}"#)).is_none());
}

#[test]
fn replies_need_reports_that_can_be_made() {
    let odd = |id: &str| PeerRecord { session_id: id.to_string(), ..peers()[1].clone() };
    let live = vec![odd("1234567é"), odd("7654321é")];
    let send = |to: &str, message: &str| {
        parse(&format!(
            r#"{{"id":1,"method":"tools/call","params":{{"name":"send_message","arguments":{{"to":"{to}","message":"{message}"}}}}}}"#
        ))
    };
    assert!(!reply_is_possible(&send(" api", "hi"), &id(), &live));
    assert!(reply_is_possible(&send("api", " "), &id(), &live));
    assert!(reply_is_possible(&send("web", "hi"), &id(), &live));
    assert!(reply_is_possible(&send("api", "hi"), &id(), &peers()));
    let list = parse(r#"{"id":1,"method":"tools/call","params":{"name":"list_peers"}}"#);
    assert!(reply_is_possible(&list, &id(), &live));
    assert!(reply_is_possible(&parse(r#"{"method":"ping"}"#), &id(), &live));
}
