use grok_peers::clock::{unix_ms_of, unix_nanos_of, unix_now_ms, unix_now_nanos};
use grok_peers::stamp::{
    consume_last_send_if_matches_in, record_last_send, record_last_send_in, should_fallback_relay,
    stamp_path_in, stamp_tmp_path_in, StampSlot,
};

#[test]
fn stamp_roundtrip_consume() {
    let mut slot = StampSlot::Missing;
    record_last_send_in(&mut slot, "sess-1", "api", "api", "s-api", 100);
    assert!(!consume_last_send_if_matches_in(&mut slot, "sess-1", "api", 200));
    assert!(consume_last_send_if_matches_in(&mut slot, "sess-1", "api", 50));
    assert!(!consume_last_send_if_matches_in(&mut slot, "sess-1", "api", 50));
}

#[test]
fn fallback_relay_rules() {
    assert!(should_fallback_relay(Some("api"), "hi", false));
    assert!(!should_fallback_relay(Some("api"), "hi", true));
    assert!(!should_fallback_relay(Some("api"), "  ", false));
    assert!(!should_fallback_relay(None, "hi", false));
    assert!(!should_fallback_relay(Some(""), "hi", false));
}

#[test]
fn stamps_answer_to_address_name_and_id() {
    for reply_to in ["0001", "API", "s-api"] {
        let mut slot = StampSlot::Missing;
        record_last_send_in(&mut slot, "sess", "0001", "api", "s-api", 7);
        assert!(consume_last_send_if_matches_in(&mut slot, "sess", reply_to, 7));
        assert_eq!(slot, StampSlot::Missing);
    }
    let mut slot = StampSlot::Missing;
    record_last_send_in(&mut slot, "sess", "0001", "api", "s-api", 7);
    assert!(!consume_last_send_if_matches_in(&mut slot, "sess", "S-API", 7));
    assert!(matches!(slot, StampSlot::Stamped(_)));
}

#[test]
fn stamps_need_a_session_and_an_address() {
    let mut slot = StampSlot::Missing;
    record_last_send_in(&mut slot, "", "api", "api", "s-api", 1);
    assert_eq!(slot, StampSlot::Missing);
    let mut corrupt = StampSlot::Corrupt;
    assert!(!consume_last_send_if_matches_in(&mut corrupt, "sess", "", 0));
    assert_eq!(corrupt, StampSlot::Corrupt);
    assert!(!consume_last_send_if_matches_in(&mut corrupt, "sess", "api", 0));
    assert_eq!(corrupt, StampSlot::Missing);
}

#[test]
fn stamps_bear_the_time_of_the_send() {
    let before = unix_now_ms();
    let mut slot = StampSlot::Missing;
    record_last_send(&mut slot, "sess", "api", "api", "s-api");
    assert!(before > 0);
    assert!(consume_last_send_if_matches_in(&mut slot, "sess", "api", before));
    assert_eq!(unix_ms_of(Some(1_999_999)), 1);
    assert_eq!(unix_ms_of(None), 0);
    assert_eq!(unix_nanos_of(Some(1_999_999)), 1_999_999);
    assert_eq!(unix_nanos_of(None), 0);
    assert!(unix_now_nanos() / 1_000_000 >= before as u128);
}

#[test]
fn stamp_files_stand_beside_the_inbox() {
    assert_eq!(stamp_path_in("/h", "a/b"), "/h/peers/a_b.last-send.json");
    assert_eq!(stamp_tmp_path_in("/h", "s"), "/h/peers/s.last-send.last-send.json.tmp");
}
