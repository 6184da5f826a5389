use grok_peers::inbox::{InboxEnvelope, RepeatGuard};
use grok_peers::registry::{PeerRecord, Timestamp};
use grok_peers::session::{
    apply_startup_name_title, command_for_envelope, command_with_id, inbound, inbound_at,
    inbox_mode, live_name, preferred_name_from_meta, rename_for_session, set_inbox_mode,
    start_for_session, stop_for_session, InboxMode, Runtimes, SessionCommand, StartRequest,
    REPEAT_WINDOW_NANOS,
};

fn env() -> InboxEnvelope {
    InboxEnvelope {
        from_name: "api".to_string(),
        from_session_id: "s1".to_string(),
        message: "ship it".to_string(),
        reply_to: Some("api".to_string()),
    }
}

fn record(session_id: &str, name: &str) -> PeerRecord {
    PeerRecord {
        session_id: session_id.to_string(),
        name: name.to_string(),
        cwd: "/w".to_string(),
        pid: 1,
        inbox_path: "/tmp/x.sock".to_string(),
        updated_at: Timestamp { secs: 1, nanos: 0 },
        note: None,
    }
}

fn request<'a>(session_id: &'a str, preferred: Option<&'a str>) -> StartRequest<'a> {
    StartRequest {
        session_id,
        cwd: "/w/my-app",
        preferred_name: preferred,
        grok_home: "/h",
        pid: 77,
    }
}

fn start(runtimes: &mut Runtimes, session_id: &str, name: &str) {
    let got = start_for_session(
        runtimes,
        request(session_id, Some(name)),
        |_| Ok(()),
        |path| Ok(path.to_string()),
        |record| Ok(record),
    );
    assert_eq!(got.as_deref(), Some(name));
}

#[test]
fn cursor_proxy_keeps_structured_envelope() {
    match command_for_envelope(InboxMode::CursorProxy, &env()) {
        SessionCommand::CursorProxyInbound { text, reply_to, from_name } => {
            assert_eq!(text, "ship it");
            assert_eq!(reply_to, "api");
            assert_eq!(from_name, "api");
        }
        _ => panic!("expected CursorProxyInbound"),
    }
}

#[test]
fn interject_mode_formats_prompt() {
    match command_for_envelope(InboxMode::Interject, &env()) {
        SessionCommand::Interject { text, .. } => {
            assert!(text.contains("api"));
            assert!(text.contains("ship it"));
        }
        _ => panic!("expected Interject"),
    }
}

#[test]
fn interject_ids_are_fresh() {
    let mut ids = Vec::new();
    for _ in 0..2 {
        match command_for_envelope(InboxMode::Interject, &env()) {
            SessionCommand::Interject { id: Some(id), images, .. } => {
                assert!(images.is_empty());
                let uuid = id.strip_prefix("peer-msg-").unwrap().to_string();
                assert_eq!(uuid.len(), 36);
                for (i, c) in uuid.chars().enumerate() {
                    match i {
                        8 | 13 | 18 | 23 => assert_eq!(c, '-'),
                        14 => assert_eq!(c, '4'),
                        19 => assert!("89ab".contains(c)),
                        _ => assert!(c.is_ascii_digit() || ('a'..='f').contains(&c)),
                    }
                }
                ids.push(uuid);
            }
            _ => panic!("expected Interject"),
        }
    }
    assert_ne!(ids[0], ids[1]);
    match command_with_id(InboxMode::Interject, &env(), "7") {
        SessionCommand::Interject { id, .. } => assert_eq!(id.as_deref(), Some("peer-msg-7")),
        _ => panic!("expected Interject"),
    }
}

#[test]
fn proxied_answers_go_to_the_sender_without_an_address() {
    for reply_to in [None, Some(String::new())] {
        let env = InboxEnvelope { reply_to, ..env() };
        match command_with_id(InboxMode::CursorProxy, &env, "") {
            SessionCommand::CursorProxyInbound { reply_to, .. } => assert_eq!(reply_to, "api"),
            _ => panic!("expected CursorProxyInbound"),
        }
    }
}

#[test]
fn repeated_envelopes_are_dropped() {
    let mut repeats = RepeatGuard::new(REPEAT_WINDOW_NANOS);
    assert!(inbound_at(&mut repeats, InboxMode::CursorProxy, &env(), 0).is_some());
    assert!(inbound_at(&mut repeats, InboxMode::CursorProxy, &env(), 1_999_999_999).is_none());
    assert!(inbound_at(&mut repeats, InboxMode::CursorProxy, &env(), 2_000_000_000).is_some());
    let other = InboxEnvelope { from_session_id: "s2".to_string(), ..env() };
    assert!(inbound_at(&mut repeats, InboxMode::CursorProxy, &other, 2_000_000_000).is_some());
    let mut live = RepeatGuard::new(60_000_000_000);
    assert!(inbound(&mut live, InboxMode::Interject, &env()).is_some());
    assert!(inbound(&mut live, InboxMode::Interject, &env()).is_none());
}

#[test]
fn sessions_start_and_stop() {
    let mut runtimes = Runtimes::new();
    let name = start_for_session(
        &mut runtimes,
        request("ab-12", None),
        |id| {
            assert_eq!(id, "ab-12");
            Err("not registered".to_string())
        },
        |path| {
            assert_eq!(path, "/h/peers/ab-12.sock");
            Ok(path.to_string())
        },
        |record| {
            assert_eq!(record.session_id, "ab-12");
            assert_eq!(record.name, "my-app-12");
            assert_eq!(record.cwd, "/w/my-app");
            assert_eq!(record.pid, 77);
            assert_eq!(record.inbox_path, "/h/peers/ab-12.sock");
            assert_eq!(record.note, None);
            Ok(PeerRecord { name: "my-app-12-2".to_string(), ..record })
        },
    );
    assert_eq!(name.as_deref(), Some("my-app-12-2"));
    assert_eq!(live_name(&runtimes, "ab-12").as_deref(), Some("my-app-12-2"));
    assert_eq!(inbox_mode(&runtimes, "ab-12"), Some(InboxMode::Interject));
    stop_for_session(&mut runtimes, "ab-12", |_| Ok(()));
    assert_eq!(live_name(&runtimes, "ab-12"), None);
    assert_eq!(inbox_mode(&runtimes, "ab-12"), None);
}

#[test]
fn failed_starts_leave_no_inbox() {
    let mut runtimes = Runtimes::new();
    start(&mut runtimes, "s1", "api");
    let unbound = start_for_session(
        &mut runtimes,
        request("s1", Some("api")),
        |_| Ok(()),
        |_| Err("in use".to_string()),
        |_| panic!("not bound"),
    );
    assert_eq!(unbound, None);
    assert_eq!(live_name(&runtimes, "s1"), None);
    let unregistered = start_for_session(
        &mut runtimes,
        request("s1", Some(" \n")),
        |_| Ok(()),
        |path| Ok(path.to_string()),
        |record| {
            assert_eq!(record.name, "my-app-s1");
            Err("locked".to_string())
        },
    );
    assert_eq!(unregistered, None);
    assert_eq!(live_name(&runtimes, "s1"), None);
}

#[test]
fn modes_are_kept_per_session() {
    let mut runtimes = Runtimes::new();
    start(&mut runtimes, "s1", "api");
    start(&mut runtimes, "s2", "web");
    set_inbox_mode(&mut runtimes, "s1", InboxMode::CursorProxy);
    set_inbox_mode(&mut runtimes, "nobody", InboxMode::CursorProxy);
    assert_eq!(inbox_mode(&runtimes, "s1"), Some(InboxMode::CursorProxy));
    assert_eq!(inbox_mode(&runtimes, "s2"), Some(InboxMode::Interject));
    assert_eq!(inbox_mode(&runtimes, "nobody"), None);
    stop_for_session(&mut runtimes, "s1", |_| Ok(()));
    assert_eq!(live_name(&runtimes, "s2").as_deref(), Some("web"));
}

#[test]
fn renames_follow_the_registry() {
    let mut runtimes = Runtimes::new();
    start(&mut runtimes, "s1", "api");
    let renamed = rename_for_session(&mut runtimes, "s1", "pay", |id, name| {
        assert_eq!((id, name), ("s1", "pay"));
        Ok(Some(record("s1", "pay-2")))
    });
    assert_eq!(renamed.as_deref(), Some("pay-2"));
    assert_eq!(live_name(&runtimes, "s1").as_deref(), Some("pay-2"));
    assert_eq!(rename_for_session(&mut runtimes, "s1", "x", |_, _| Ok(None)), None);
    assert_eq!(
        rename_for_session(&mut runtimes, "s1", "x", |_, _| Err("locked".to_string())),
        None
    );
    assert_eq!(live_name(&runtimes, "s1").as_deref(), Some("pay-2"));
    assert_eq!(
        rename_for_session(&mut runtimes, "s9", "x", |_, _| Ok(Some(record("s9", "x")))).as_deref(),
        Some("x")
    );
    assert_eq!(live_name(&runtimes, "s9"), None);
}

#[test]
fn names_are_read_from_meta() {
    let name = |text: &str| {
        let meta: serde_json::Value = serde_json::from_str(text).unwrap();
        preferred_name_from_meta(Some(&meta))
    };
    assert_eq!(name(r#"{"sessionName":"  my \t api "}"#).as_deref(), Some("my api"));
    assert_eq!(name(r#"{"sessionName":"  "}"#), None);
    assert_eq!(name(r#"{"sessionName":"\u0007"}"#), None);
    assert_eq!(name(r#"{"sessionName":3}"#), None);
    assert_eq!(name(r#"{}"#), None);
    assert_eq!(preferred_name_from_meta(None), None);
}

#[test]
fn startup_names_become_titles() {
    let stored = apply_startup_name_title(" api ", |title| {
        assert_eq!(title, "api");
        Ok(())
    });
    assert_eq!(stored.as_deref(), Some("api"));
    assert_eq!(apply_startup_name_title("api", |_| Err("disk full".to_string())), None);
    assert_eq!(apply_startup_name_title(" \n", |_| panic!("nothing to store")), None);
}
