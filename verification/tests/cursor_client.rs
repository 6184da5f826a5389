use grok_peers::app_view::{
    AgentId, AgentState, AgentView, Effect, EntryId, PeerDesk, RenderBlock,
};
use grok_peers::cursor_client::{
    activate_on_agent, apply_progress, begin_cursor_run, cached_models, clear_cached_models_for_test,
    clear_cursor_client_on_agent, cursor_proxy_send_effect, display_or_id, drain_queued_send,
    enqueue_or_send, finish_cursor_run, mark_fetch_started, maybe_prefetch_models,
    reset_models_fetch, resolve_model_arg, set_cached_models, should_prefetch_models, status_label,
    CursorClientSession, CursorModelChoice, CursorProxyProgress, ModelCache,
};
use grok_peers::session::{inbox_mode, start_for_session, InboxMode, Runtimes, StartRequest};

fn composer() -> CursorModelChoice {
    CursorModelChoice {
        id: "composer-2".to_string(),
        display_name: "Composer 2".to_string(),
        description: String::new(),
    }
}

fn desk() -> PeerDesk {
    let mut runtimes = Runtimes::new();
    let request = StartRequest {
        session_id: "test-session",
        cwd: "/w",
        preferred_name: Some("me"),
        grok_home: "/h",
        pid: 1,
    };
    start_for_session(&mut runtimes, request, |_| Ok(()), |p| Ok(p.to_string()), |r| Ok(r));
    PeerDesk { runtimes, notes: Vec::new() }
}

fn client_agent(desk: &mut PeerDesk) -> AgentView {
    let mut agent =
        AgentView::new(AgentId(0), Some("test-session".to_string()), "/w".to_string());
    activate_on_agent(
        &mut agent,
        desk,
        "composer-2".to_string(),
        "Composer 2".to_string(),
        "agt".to_string(),
    );
    agent
}

fn sent_text(effects: &[Effect]) -> Option<(&str, Option<&str>)> {
    match effects {
        [Effect::CursorProxySend { text, reply_to, .. }] => Some((text, reply_to.as_deref())),
        _ => None,
    }
}

#[test]
fn status_label_uses_display_name() {
    let session = CursorClientSession {
        model_id: "composer-2".to_string(),
        display_name: "Composer 2".to_string(),
        agent_id: "agt".to_string(),
        inflight: false,
        activity: None,
        stream_entry: None,
        streamed_text: String::new(),
    };
    assert_eq!(status_label(&session), "Cursor · Composer 2");
}

#[test]
fn prefetch_triggers_on_model_cursor_prefix() {
    let mut cache = ModelCache::new();
    clear_cached_models_for_test(&mut cache);
    assert!(should_prefetch_models(&cache, "/model-cursor"));
    assert!(should_prefetch_models(&cache, "/model-cursor "));
    assert!(should_prefetch_models(&cache, "/cursor-model composer"));
    assert!(!should_prefetch_models(&cache, "/model grok"));
    assert!(!should_prefetch_models(&cache, "model-cursor"));
    set_cached_models(&mut cache, vec![composer()]);
    assert!(!should_prefetch_models(&cache, "/model-cursor"));
    clear_cached_models_for_test(&mut cache);
}

#[test]
fn prefetch_needs_the_whole_command() {
    let cache = ModelCache::new();
    assert!(should_prefetch_models(&cache, "  /model-cursor\u{3000}x"));
    assert!(!should_prefetch_models(&cache, "/model-cursors"));
}

#[test]
fn model_cache_remembers_fetches() {
    let mut cache = ModelCache::new();
    assert!(cached_models(&cache).is_none());
    assert!(mark_fetch_started(&mut cache));
    assert!(!mark_fetch_started(&mut cache));
    assert!(!should_prefetch_models(&cache, "/model-cursor"));
    reset_models_fetch(&mut cache);
    assert!(should_prefetch_models(&cache, "/model-cursor"));
    set_cached_models(&mut cache, vec![composer()]);
    assert_eq!(cached_models(&cache).unwrap(), vec![composer()]);
    assert!(!mark_fetch_started(&mut cache));
}

#[test]
fn model_arguments_are_resolved() {
    let mut cache = ModelCache::new();
    assert_eq!(resolve_model_arg(&cache, "  "), None);
    assert_eq!(
        resolve_model_arg(&cache, " x "),
        Some(("x".to_string(), "x".to_string()))
    );
    let blank = CursorModelChoice {
        id: "composer 2".to_string(),
        display_name: " ".to_string(),
        description: String::new(),
    };
    assert_eq!(display_or_id(&blank), "composer 2");
    set_cached_models(&mut cache, vec![composer(), blank]);
    assert_eq!(
        resolve_model_arg(&cache, "COMPOSER-2"),
        Some(("composer-2".to_string(), "Composer 2".to_string()))
    );
    assert_eq!(
        resolve_model_arg(&cache, "Composer 2"),
        Some(("composer 2".to_string(), "composer 2".to_string()))
    );
    assert_eq!(
        resolve_model_arg(&cache, "other"),
        Some(("other".to_string(), "other".to_string()))
    );
}

#[test]
fn entering_and_leaving_switches_the_inbox() {
    let mut desk = desk();
    let mut agent = client_agent(&mut desk);
    assert_eq!(inbox_mode(&desk.runtimes, "test-session"), Some(InboxMode::CursorProxy));
    assert_eq!(desk.notes[0].note.as_deref(), Some("cursor:composer-2"));
    assert_eq!(
        agent.scrollback.entries[0].block,
        RenderBlock::System(
            "Cursor client mode: Composer 2. Prompts (and peer messages) go to Cursor. /model \
             <grok> returns to Grok."
                .to_string()
        )
    );
    assert!(clear_cursor_client_on_agent(&mut agent, &mut desk));
    assert_eq!(inbox_mode(&desk.runtimes, "test-session"), Some(InboxMode::Interject));
    assert_eq!(desk.notes[1].note, None);
    assert_eq!(desk.notes[1].session_id, "test-session");
    assert_eq!(
        agent.pending_effects,
        vec![Effect::DeleteCursorAgent {
            agent_id: AgentId(0),
            cwd: "/w".to_string(),
            cursor_agent_id: "agt".to_string(),
        }]
    );
    assert_eq!(
        agent.scrollback.entries[1].block,
        RenderBlock::System(
            "Left Cursor client mode (Composer 2). Prompts go to Grok again.".to_string()
        )
    );
    assert!(!clear_cursor_client_on_agent(&mut agent, &mut desk));
    assert_eq!(agent.pending_effects.len(), 1);
    assert_eq!(desk.notes.len(), 2);
}

#[test]
fn prompts_wait_their_turn() {
    let mut desk = desk();
    let mut agent = client_agent(&mut desk);
    let first = enqueue_or_send(&mut agent, &desk.runtimes, "one".to_string(), None, None);
    assert_eq!(
        first,
        vec![Effect::CursorProxySend {
            agent_id: AgentId(0),
            cwd: "/w".to_string(),
            cursor_agent_id: "agt".to_string(),
            text: "one".to_string(),
            reply_to: None,
            from_name: "me".to_string(),
            from_session_id: "test-session".to_string(),
        }]
    );
    assert_eq!(agent.session.state, AgentState::TurnRunning);
    for text in ["two", "three"] {
        let queued = enqueue_or_send(
            &mut agent,
            &desk.runtimes,
            text.to_string(),
            Some(format!("to-{text}")),
            Some("shown".to_string()),
        );
        assert!(queued.is_empty());
    }
    assert_eq!(
        agent.scrollback.entries.last().unwrap().block,
        RenderBlock::System("Queued — waiting for the current Cursor run to finish.".to_string())
    );
    let second = drain_queued_send(&mut agent, &desk.runtimes);
    assert_eq!(sent_text(&second), Some(("two", Some("to-two"))));
    let third = drain_queued_send(&mut agent, &desk.runtimes);
    assert_eq!(sent_text(&third), Some(("three", Some("to-three"))));
    assert!(agent.cursor_client.as_ref().unwrap().inflight);
    assert!(drain_queued_send(&mut agent, &desk.runtimes).is_empty());
    assert!(!agent.cursor_client.as_ref().unwrap().inflight);
}

#[test]
fn nothing_is_sent_without_a_client() {
    let desk = desk();
    let mut agent = AgentView::new(AgentId(3), None, "/w".to_string());
    assert!(
        enqueue_or_send(&mut agent, &desk.runtimes, "x".to_string(), None, None).is_empty()
    );
    assert!(agent.scrollback.entries.is_empty());
    assert!(drain_queued_send(&mut agent, &desk.runtimes).is_empty());
    assert!(!finish_cursor_run(&mut agent));
}

#[test]
fn unregistered_sessions_send_as_proxy() {
    let mut desk = PeerDesk { runtimes: Runtimes::new(), notes: Vec::new() };
    let mut agent = AgentView::new(AgentId(3), None, "/w".to_string());
    activate_on_agent(
        &mut agent,
        &mut desk,
        "m".to_string(),
        "M".to_string(),
        "agt".to_string(),
    );
    assert!(desk.notes.is_empty());
    match cursor_proxy_send_effect(&agent, &desk.runtimes, "x".to_string(), None) {
        Effect::CursorProxySend { from_name, from_session_id, .. } => {
            assert_eq!(from_name, "cursor-proxy");
            assert_eq!(from_session_id, "");
        }
        other => panic!("{other:?}"),
    }
}

#[test]
fn progress_streams_into_one_message() {
    let mut desk = desk();
    let mut agent = client_agent(&mut desk);
    apply_progress(&mut agent, CursorProxyProgress::Status("early".to_string()));
    assert_eq!(agent.cursor_client.as_ref().unwrap().activity, None);
    begin_cursor_run(&mut agent);
    assert_eq!(agent.cursor_client.as_ref().unwrap().activity.as_deref(), Some("working"));
    apply_progress(&mut agent, CursorProxyProgress::Status(" reading \n".to_string()));
    assert_eq!(agent.cursor_client.as_ref().unwrap().activity.as_deref(), Some("reading"));
    apply_progress(&mut agent, CursorProxyProgress::Status("  ".to_string()));
    apply_progress(&mut agent, CursorProxyProgress::AssistantDelta(String::new()));
    assert_eq!(agent.cursor_client.as_ref().unwrap().stream_entry, None);
    apply_progress(&mut agent, CursorProxyProgress::AssistantDelta("Hel".to_string()));
    apply_progress(&mut agent, CursorProxyProgress::AssistantDelta("lo".to_string()));
    let client = agent.cursor_client.as_ref().unwrap();
    assert_eq!(client.activity.as_deref(), Some("responding"));
    assert_eq!(client.stream_entry, Some(EntryId(1)));
    assert_eq!(client.streamed_text, "Hello");
    assert_eq!(
        agent.scrollback.entries[1].block,
        RenderBlock::AgentMessage("Hello".to_string())
    );
    assert!(agent.scrollback.entries[1].running);
    assert!(finish_cursor_run(&mut agent));
    assert_eq!(agent.session.state, AgentState::Idle);
    assert!(!agent.scrollback.entries[1].running);
    assert_eq!(agent.cursor_client.as_ref().unwrap().stream_entry, None);
    assert!(!finish_cursor_run(&mut agent));
}

#[test]
fn prefetch_is_asked_for_once() {
    let mut cache = ModelCache::new();
    let mut agent = AgentView::new(AgentId(5), None, "/w".to_string());
    agent.prompt = "/model".to_string();
    maybe_prefetch_models(&mut agent, &mut cache);
    assert!(agent.pending_effects.is_empty());
    agent.prompt = "/model-cursor".to_string();
    maybe_prefetch_models(&mut agent, &mut cache);
    maybe_prefetch_models(&mut agent, &mut cache);
    assert_eq!(
        agent.pending_effects,
        vec![Effect::FetchCursorModels { agent_id: AgentId(5), cwd: "/w".to_string() }]
    );
}

#[test]
fn scrollback_ignores_entries_that_are_not_there() {
    let mut agent = AgentView::new(AgentId(0), None, "/w".to_string());
    agent.scrollback.push_block(RenderBlock::System("s".to_string()));
    agent.scrollback.push_chunk_to_agent(EntryId(0), "x");
    agent.scrollback.push_chunk_to_agent(EntryId(9), "x");
    agent.scrollback.set_entry_running(EntryId(9), true);
    assert_eq!(agent.scrollback.entries.len(), 1);
    assert_eq!(agent.scrollback.entries[0].block, RenderBlock::System("s".to_string()));
    assert!(!agent.scrollback.entries[0].running);
}
