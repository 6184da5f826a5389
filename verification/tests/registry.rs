use grok_peers::registry::{
    is_pid_alive, list_live_in, read_data_file, register_in, unregister_in, update_name_in,
    update_note_in, IndexFile, PeerRecord, RegistryError, SignalOutcome, Timestamp,
};

const PID: u32 = 4242;

fn sample(session_id: &str, name: &str) -> PeerRecord {
    PeerRecord {
        session_id: session_id.to_string(),
        name: name.to_string(),
        cwd: "/tmp/proj".to_string(),
        pid: PID,
        inbox_path: format!("/tmp/{session_id}.sock"),
        updated_at: Timestamp { secs: 0, nanos: 0 },
        note: None,
    }
}

fn alive() -> Vec<u32> {
    vec![PID]
}

#[test]
fn register_list_unregister_roundtrip() {
    let mut peers = Vec::new();
    let a = register_in(&mut peers, sample("s1", "api"), &alive()).unwrap();
    assert_eq!(a.name, "api");
    let listed = list_live_in(&mut peers, &alive());
    assert_eq!(listed.len(), 1);
    assert_eq!(listed[0].session_id, "s1");
    unregister_in(&mut peers, "s1");
    assert!(list_live_in(&mut peers, &alive()).is_empty());
}

#[test]
fn register_renames_on_collision() {
    let mut peers = Vec::new();
    let _ = register_in(&mut peers, sample("s1", "api"), &alive()).unwrap();
    let b = register_in(&mut peers, sample("s2", "api"), &alive()).unwrap();
    assert_eq!(b.name, "api-2");
}

#[test]
fn update_name_allocates_variant() {
    let mut peers = Vec::new();
    let _ = register_in(&mut peers, sample("s1", "api"), &alive()).unwrap();
    let _ = register_in(&mut peers, sample("s2", "other"), &alive()).unwrap();
    let updated = update_name_in(&mut peers, "s2", "api", &alive()).unwrap().unwrap();
    assert_eq!(updated.name, "api-2");
}

#[test]
fn empty_names_are_refused() {
    let mut peers = vec![sample("s1", "api")];
    let refused = register_in(&mut peers, sample("s2", " \n "), &alive()).unwrap_err();
    assert_eq!(refused, RegistryError::EmptyName);
    assert_eq!(refused.message(), "peer name must not be empty");
    assert_eq!(
        update_name_in(&mut peers, "s1", "\t", &alive()).unwrap_err(),
        RegistryError::EmptyName
    );
    assert_eq!(peers, vec![sample("s1", "api")]);
}

#[test]
fn registering_twice_keeps_one_record_and_the_name() {
    let mut peers = Vec::new();
    let _ = register_in(&mut peers, sample("s1", "api"), &alive()).unwrap();
    let again = register_in(&mut peers, sample("s1", "api"), &alive()).unwrap();
    assert_eq!(again.name, "api");
    assert_eq!(peers.len(), 1);
    assert!(again.updated_at.secs > 0);
}

#[test]
fn names_of_dead_sessions_are_free() {
    let mut dead = sample("s1", "api");
    dead.pid = 7;
    let mut peers = vec![dead];
    let live = register_in(&mut peers, sample("s2", "api"), &alive()).unwrap();
    assert_eq!(live.name, "api");
    assert_eq!(peers.len(), 2);
    let listed = list_live_in(&mut peers, &alive());
    assert_eq!(listed.len(), 1);
    assert_eq!(list_live_in(&mut peers, &alive()), listed);
}

#[test]
fn renaming_prunes_dead_sessions_but_not_itself() {
    let mut gone = sample("s1", "api");
    gone.pid = 7;
    let mut own = sample("s2", "web");
    own.pid = 8;
    let mut peers = vec![gone, own];
    let renamed = update_name_in(&mut peers, "s2", "api", &alive()).unwrap().unwrap();
    assert_eq!(renamed.name, "api");
    assert_eq!(peers.len(), 1);
    assert!(update_name_in(&mut peers, "nobody", "x", &alive()).unwrap().is_none());
}

#[test]
fn notes_are_set_and_cleared() {
    let mut peers = vec![sample("s1", "api")];
    let noted = update_note_in(&mut peers, "s1", Some("cursor:composer-2".to_string())).unwrap();
    assert_eq!(noted.note.as_deref(), Some("cursor:composer-2"));
    assert_eq!(peers[0].note.as_deref(), Some("cursor:composer-2"));
    let cleared = update_note_in(&mut peers, "s1", None).unwrap();
    assert_eq!(cleared.note, None);
    assert!(update_note_in(&mut peers, "s9", None).is_none());
}

#[test]
fn unregister_takes_registration_back() {
    let mut peers = vec![sample("s1", "api")];
    let before = peers.clone();
    let _ = register_in(&mut peers, sample("s2", "web"), &alive()).unwrap();
    unregister_in(&mut peers, "s2");
    assert_eq!(peers, before);
}

#[test]
fn liveness_follows_the_null_signal() {
    assert!(!is_pid_alive(0, |_| SignalOutcome::Delivered));
    assert!(!is_pid_alive(u32::MAX, |_| SignalOutcome::Delivered));
    assert!(is_pid_alive(1, |_| SignalOutcome::Delivered));
    assert!(is_pid_alive(1, |_| SignalOutcome::NotPermitted));
    assert!(!is_pid_alive(1, |_| SignalOutcome::Failed));
}

#[test]
fn damaged_index_starts_empty() {
    assert!(read_data_file(IndexFile::Missing).unwrap().is_empty());
    assert!(read_data_file(IndexFile::Empty).unwrap().is_empty());
    assert!(read_data_file(IndexFile::Corrupt).unwrap().is_empty());
    assert_eq!(read_data_file(IndexFile::Unreadable("denied".to_string())).unwrap_err(), "denied");
    assert_eq!(
        read_data_file(IndexFile::Records(vec![sample("s1", "api")])).unwrap().len(),
        1
    );
}
