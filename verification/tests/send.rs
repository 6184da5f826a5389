use grok_peers::inbox::{InboxEnvelope, InboxSendError};
use grok_peers::registry::{PeerRecord, Timestamp};
use grok_peers::send::{
    filter_peers, find_target, list_peers_for, report_is_possible, send_to_live_peer,
    PeerSendOutput, MAX_PEER_MESSAGE_LEN,
};

fn peer(session_id: &str, name: &str, cwd: &str) -> PeerRecord {
    PeerRecord {
        session_id: session_id.to_string(),
        name: name.to_string(),
        cwd: cwd.to_string(),
        pid: 1,
        inbox_path: format!("/tmp/{session_id}.sock"),
        updated_at: Timestamp { secs: 1, nanos: 0 },
        note: None,
    }
}

fn live() -> Vec<PeerRecord> {
    vec![
        peer("aaaa1111-self", "me", "/w/me"),
        peer("bbbb2222-0001", "api", "/w/api"),
        peer("cccc3333-0001", "web", "/w/front"),
    ]
}

fn no_delivery(_path: &str, _env: &InboxEnvelope) -> Result<(), InboxSendError> {
    panic!("nothing may be delivered")
}

fn no_listing() -> Result<Vec<PeerRecord>, String> {
    panic!("nothing may be listed")
}

#[test]
fn message_reaches_the_named_peer() {
    let out = send_to_live_peer(
        "me",
        "aaaa1111-self",
        " API ",
        "  done \n",
        || Ok(live()),
        |path, env| {
            assert_eq!(path, "/tmp/bbbb2222-0001.sock");
            assert_eq!(env.message, "done");
            assert_eq!(env.from_name, "me");
            assert_eq!(env.from_session_id, "aaaa1111-self");
            assert_eq!(env.reply_to.as_deref(), Some("me"));
            Ok(())
        },
    );
    assert!(out.is_delivered());
    assert_eq!(out.to_name, "api");
    assert_eq!(out.to_session_id, "bbbb2222-0001");
    assert_eq!(out.detail, "Message delivered to peer 'api'.");
    assert_eq!(
        out,
        PeerSendOutput::delivered("api".to_string(), "bbbb2222-0001".to_string())
    );
}

#[test]
fn refusals_come_before_any_listing() {
    let blank = send_to_live_peer("me", "s", "api", " \n", no_listing, no_delivery);
    assert_eq!(blank.status, "unreachable");
    assert_eq!(blank.to_name, "api");
    assert_eq!(blank.detail, "message must not be blank");
    let big = "x".repeat(MAX_PEER_MESSAGE_LEN + 1);
    let large = send_to_live_peer("me", "s", "api", &big, no_listing, no_delivery);
    assert_eq!(large.detail, "message exceeds 32 KiB limit");
    let nowhere = send_to_live_peer("me", "s", "  ", "hi", no_listing, no_delivery);
    assert_eq!(nowhere.detail, "to must be a peer name or session id");
    assert_eq!(nowhere.to_name, "");
}

#[test]
fn message_size_counts_bytes() {
    let fits = "x".repeat(MAX_PEER_MESSAGE_LEN);
    let out = send_to_live_peer("me", "s", "api", &fits, || Ok(live()), |_, _| Ok(()));
    assert!(out.is_delivered());
    let wide = "é".repeat(MAX_PEER_MESSAGE_LEN / 2 + 1);
    let refused = send_to_live_peer("me", "s", "api", &wide, no_listing, no_delivery);
    assert_eq!(refused.detail, "message exceeds 32 KiB limit");
}

#[test]
fn failures_are_told() {
    let unlisted = send_to_live_peer(
        "me",
        "s",
        " api ",
        "hi",
        || Err("locked".to_string()),
        no_delivery,
    );
    assert_eq!(unlisted.detail, "Failed to list live peers: locked");
    assert_eq!(unlisted.to_name, "api");
    let unknown = send_to_live_peer("me", "s", "db", "hi", || Ok(live()), no_delivery);
    assert_eq!(
        unknown.detail,
        "No live peer named 'db'. Run list_peers to see reachable sessions."
    );
    let failed = send_to_live_peer("me", "s", "api", "hi", || Ok(live()), |_, _| {
        Err(InboxSendError::Connect("refused".to_string()))
    });
    assert_eq!(failed.status, "unreachable");
    assert_eq!(failed.to_session_id, "bbbb2222-0001");
    assert_eq!(failed.detail, "Failed to deliver to 'api': connect failed: refused");
}

#[test]
fn ambiguous_targets_are_listed() {
    let out = send_to_live_peer("me", "aaaa1111-self", "0001", "hi", || Ok(live()), no_delivery);
    assert_eq!(out.status, "ambiguous");
    assert_eq!(out.to_name, "0001");
    assert_eq!(out.to_session_id, "");
    assert_eq!(
        out.detail,
        "Multiple peers match '0001': api (bbbb2222), web (cccc3333). Address by full session id."
    );
}

#[test]
fn a_session_never_reaches_itself() {
    let refused = find_target(&live(), "aaaa1111-self", "me").unwrap_err();
    assert_eq!(refused.status, "unreachable");
    assert_eq!(refused.to_name, "me");
    let by_id = find_target(&live(), "aaaa1111-self", "cccc3333-0001").unwrap();
    assert_eq!(by_id.name, "web");
    let by_end = find_target(&live(), "x", "-self").unwrap();
    assert_eq!(by_end.name, "me");
}

#[test]
fn reports_need_session_ids_that_can_be_cut() {
    let odd = vec![peer("abcdefgé", "b", "/"), peer("1234567é90", "c", "/"), peer("é", "c", "/")];
    assert!(report_is_possible(&live(), "s", "0001"));
    assert!(report_is_possible(&odd, "s", "b"));
    assert!(report_is_possible(&odd, "s", "nobody"));
    assert!(!report_is_possible(&odd, "s", "c"));
    assert!(report_is_possible(&odd, "é", "c"));
    assert_eq!(find_target(&odd, "s", "b").unwrap().session_id, "abcdefgé");
    let short = vec![peer("a1", "x", "/"), peer("b1", "x", "/"), peer("abcdefé!", "x", "/")];
    assert!(report_is_possible(&short, "s", "x"));
    assert_eq!(
        find_target(&short, "s", "x").unwrap_err().detail,
        "Multiple peers match 'x': x (a1), x (b1), x (abcdefé). Address by full session id."
    );
}

#[test]
fn listing_leaves_the_session_out() {
    let all = list_peers_for("aaaa1111-self", None, || Ok(live())).unwrap();
    assert_eq!(all.len(), 2);
    let blank = list_peers_for("aaaa1111-self", Some("  "), || Ok(live())).unwrap();
    assert_eq!(blank, all);
    let by_cwd = filter_peers(&live(), "aaaa1111-self", Some(" FRONT "));
    assert_eq!(by_cwd.len(), 1);
    assert_eq!(by_cwd[0].name, "web");
    let by_name = filter_peers(&live(), "aaaa1111-self", Some("Ap"));
    assert_eq!(by_name.len(), 1);
    assert!(filter_peers(&live(), "aaaa1111-self", Some("me")).is_empty());
    assert_eq!(
        list_peers_for("s", None, || Err("locked".to_string())).unwrap_err(),
        "locked"
    );
}
