use grok_peers::naming::{
    allocate_live_name, default_name_from_cwd, fallback_suffix_at, sanitize_peer_name, short_id,
    short_id_suffix, uuid_fallback_suffix, MAX_PEER_NAME_LEN,
};

fn taken(names: &[&str]) -> Vec<String> {
    names.iter().map(|s| s.to_string()).collect()
}

#[test]
fn sanitize_strips_controls_and_collapses_space() {
    assert_eq!(sanitize_peer_name("  api\t worker\n "), "api worker");
}

#[test]
fn default_name_uses_folder_and_suffix() {
    let name = default_name_from_cwd("/tmp/my-app", "abcdef12-3456");
    assert_eq!(name, "my-app-56");
}

#[test]
fn allocate_suffixes_on_collision() {
    let names = taken(&["api", "api-2"]);
    assert_eq!(allocate_live_name("api", &names), "api-3");
    assert_eq!(allocate_live_name("API", &names), "API-3");
}

#[test]
fn allocate_free_name_unchanged() {
    assert_eq!(allocate_live_name("frontend", &taken(&[])), "frontend");
}

#[test]
fn sanitize_cuts_long_names_and_is_idempotent() {
    let long = "x".repeat(200);
    let once = sanitize_peer_name(&long);
    assert_eq!(once.chars().count(), MAX_PEER_NAME_LEN);
    assert_eq!(sanitize_peer_name(&once), once);
    assert_eq!(sanitize_peer_name(" \u{7} \n"), "");
    assert_eq!(sanitize_peer_name("a\u{3000}\u{a0} b"), "a b");
}

#[test]
fn sanitize_trims_again_after_the_cut() {
    let raw = format!("{} {}", "y".repeat(79), "z".repeat(10));
    assert_eq!(sanitize_peer_name(&raw), "y".repeat(79));
}

#[test]
fn default_name_without_folder_is_session() {
    assert_eq!(default_name_from_cwd("/", "0123456789"), "session-89");
    assert_eq!(default_name_from_cwd("/srv/app/..", "0123456789"), "session-89");
    assert_eq!(default_name_from_cwd("/srv/app/./", "--9"), "app-9");
}

#[test]
fn short_ids_keep_the_end() {
    assert_eq!(short_id("abc-def-012345", 8), "ef012345");
    assert_eq!(short_id("a-b", 8), "ab");
    assert_eq!(short_id_suffix("abcdef12-3456"), "56");
}

#[test]
fn blank_preferred_name_falls_back_to_session() {
    assert_eq!(allocate_live_name("", &taken(&[])), "session");
    assert_eq!(allocate_live_name("", &taken(&["Session"])), "session-2");
}

#[test]
fn allocated_name_is_never_taken() {
    let mut names = taken(&["api"]);
    for n in 2..40 {
        let name = allocate_live_name("api", &names);
        assert_eq!(name, format!("api-{n}"));
        assert!(!names.iter().any(|t| t.eq_ignore_ascii_case(&name)));
        names.push(name);
    }
}

#[test]
fn fallback_suffix_is_hexadecimal() {
    assert_eq!(fallback_suffix_at(255), "ff");
    assert_eq!(fallback_suffix_at(0), "0");
    assert!(uuid_fallback_suffix().chars().all(|c| c.is_ascii_hexdigit()));
}
