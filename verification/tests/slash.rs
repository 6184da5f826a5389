use grok_peers::app_view::Action;
use grok_peers::cursor_client::{
    clear_cached_models_for_test, set_cached_models, CursorModelChoice, ModelCache,
};
use grok_peers::registry::{PeerRecord, Timestamp};
use grok_peers::slash::{CommandResult, ModelCursorCommand, PeersCommand};

fn choice(description: &str) -> CursorModelChoice {
    CursorModelChoice {
        id: "composer-2".to_string(),
        display_name: "Composer 2".to_string(),
        description: description.to_string(),
    }
}

#[test]
fn empty_args_are_an_error() {
    let mut cache = ModelCache::new();
    clear_cached_models_for_test(&mut cache);
    match ModelCursorCommand.run(&cache, "") {
        CommandResult::Error(msg) => assert!(msg.contains("/model-cursor")),
        other => panic!("expected Error, got {other:?}"),
    }
}

#[test]
fn raw_id_activates_without_cache() {
    let mut cache = ModelCache::new();
    clear_cached_models_for_test(&mut cache);
    match ModelCursorCommand.run(&cache, "composer-2") {
        CommandResult::Action(Action::ActivateCursorClient { model_id, display_name }) => {
            assert_eq!(model_id, "composer-2");
            assert_eq!(display_name, "composer-2");
        }
        other => panic!("expected ActivateCursorClient, got {other:?}"),
    }
}

#[test]
fn resolves_display_name_from_cache() {
    let mut cache = ModelCache::new();
    clear_cached_models_for_test(&mut cache);
    set_cached_models(&mut cache, vec![choice("test")]);
    match ModelCursorCommand.run(&cache, "Composer 2") {
        CommandResult::Action(Action::ActivateCursorClient { model_id, display_name }) => {
            assert_eq!(model_id, "composer-2");
            assert_eq!(display_name, "Composer 2");
        }
        other => panic!("expected ActivateCursorClient, got {other:?}"),
    }
    clear_cached_models_for_test(&mut cache);
}

#[test]
fn suggest_args_lists_cached_models() {
    let mut cache = ModelCache::new();
    clear_cached_models_for_test(&mut cache);
    set_cached_models(&mut cache, vec![choice("fast")]);
    let items = ModelCursorCommand.suggest_args(&cache, "").unwrap();
    assert_eq!(items.len(), 1);
    assert_eq!(items[0].insert_text, "composer-2");
    clear_cached_models_for_test(&mut cache);
}

#[test]
fn suggest_args_none_without_cache() {
    let mut cache = ModelCache::new();
    clear_cached_models_for_test(&mut cache);
    assert!(ModelCursorCommand.suggest_args(&cache, "").is_none());
}

#[test]
fn peers_command_metadata() {
    let cmd = PeersCommand;
    assert_eq!(cmd.name(), "peers");
    assert!(cmd.aliases().contains(&"list-agents"));
    assert_eq!(cmd.usage(), "/peers");
}

#[test]
fn model_cursor_metadata() {
    let cmd = ModelCursorCommand;
    assert_eq!(cmd.name(), "model-cursor");
    assert_eq!(cmd.aliases(), vec!["cursor-model"]);
    assert_eq!(cmd.description(), "Use a Cursor model as a client (proxy)");
    assert!(cmd.session_scoped() && cmd.takes_args() && cmd.args_required());
    assert!(!cmd.offered_when_session_less());
    assert_eq!(cmd.usage(), "/model-cursor <name>");
    assert_eq!(cmd.arg_placeholder(), Some("<cursor-model>"));
    assert!(!PeersCommand.session_scoped());
    assert_eq!(PeersCommand.description(), "List live sessions you can message");
}

#[test]
fn suggestions_are_exact() {
    let mut cache = ModelCache::new();
    set_cached_models(&mut cache, Vec::new());
    assert!(ModelCursorCommand.suggest_args(&cache, "x").is_none());
    let blank = CursorModelChoice {
        id: "m".to_string(),
        display_name: " ".to_string(),
        description: String::new(),
    };
    set_cached_models(&mut cache, vec![choice("fast"), blank]);
    let items = ModelCursorCommand.suggest_args(&cache, "x").unwrap();
    assert_eq!(items[0].display, "Composer 2");
    assert_eq!(items[0].match_text, "composer-2 Composer 2");
    assert_eq!(items[0].description, "fast");
    assert_eq!(items[1].display, "m");
    assert_eq!(items[1].match_text, "m m");
    assert_eq!(items[1].description, "m");
}

#[test]
fn peers_listing_is_exact() {
    let peer = |id: &str, name: &str, note: Option<&str>| PeerRecord {
        session_id: id.to_string(),
        name: name.to_string(),
        cwd: format!("/w/{name}"),
        pid: 1,
        inbox_path: String::new(),
        updated_at: Timestamp { secs: 1, nanos: 0 },
        note: note.map(str::to_string),
    };
    let live = vec![
        peer("0123-4567-89ab", "api", None),
        peer("xy", "seat", Some("cursor:composer-2")),
    ];
    match PeersCommand.run(Some("0123-4567-89ab"), || Ok(live)) {
        CommandResult::Message(m) => assert_eq!(
            m,
            "Live peer sessions:\n  • api (this session)\n    cwd: /w/api\n    id: …456789ab\n  • \
             seat\n    cwd: /w/seat\n    id: …xy\n    note: cursor:composer-2\n\nAsk Grok to \
             message a peer by name, e.g. \"tell api the migration finished\"."
        ),
        other => panic!("{other:?}"),
    }
    match PeersCommand.run(None, || Ok(Vec::new())) {
        CommandResult::Message(m) => assert_eq!(
            m,
            "No live peer sessions on this machine.\nStart another `grok --name <name>` in a \
             second terminal to message it."
        ),
        other => panic!("{other:?}"),
    }
    match PeersCommand.run(None, || Err("locked".to_string())) {
        CommandResult::Error(m) => assert_eq!(m, "Failed to list peers: locked"),
        other => panic!("{other:?}"),
    }
}
