use grok_peers::app_view::{
    Action, ActiveView, AgentId, AgentState, AgentView, AppView, Effect, GrokModel, PeerDesk,
    RenderBlock, TaskResult,
};
use grok_peers::cursor_client::{
    cached_models, clear_cached_models_for_test, CursorClientSession, CursorModelChoice,
    CursorProxyProgress, ModelCache,
};
use grok_peers::dispatch::{
    clear_cursor_client, command_leaves_client, dispatch, dispatch_activate_cursor_client,
    dispatch_cursor_proxy_inbound, dispatch_fetch_cursor_models, dispatch_send_prompt,
    handle_cursor_agent_created, handle_cursor_models_loaded, handle_cursor_proxy_progress,
    handle_cursor_proxy_send_complete, leave_cursor_client_if_active,
};
use grok_peers::session::Runtimes;

fn test_app_with_agent() -> AppView {
    AppView {
        agents: vec![AgentView::new(
            AgentId(0),
            Some("test-session".to_string()),
            "/w".to_string(),
        )],
        active_view: ActiveView::Agent(AgentId(0)),
        models: ModelCache::new(),
        desk: PeerDesk { runtimes: Runtimes::new(), notes: Vec::new() },
    }
}

fn enter_cursor_client(app: &mut AppView) {
    app.agents[0].cursor_client = Some(CursorClientSession {
        model_id: "composer-2".to_string(),
        display_name: "Composer 2".to_string(),
        agent_id: "agt_test".to_string(),
        inflight: false,
        activity: None,
        stream_entry: None,
        streamed_text: String::new(),
    });
}

fn notices(app: &AppView) -> Vec<&str> {
    app.agents[0]
        .scrollback
        .entries
        .iter()
        .filter_map(|e| match &e.block {
            RenderBlock::System(s) => Some(s.as_str()),
            _ => None,
        })
        .collect()
}

#[test]
fn send_prompt_in_cursor_mode_emits_proxy_send() {
    let mut app = test_app_with_agent();
    enter_cursor_client(&mut app);
    let effects = dispatch(Action::SendPrompt("fix the bug".to_string()), &mut app);
    assert!(
        matches!(
            effects.as_slice(),
            [Effect::CursorProxySend {
                cursor_agent_id,
                text,
                reply_to: None,
                ..
            }] if cursor_agent_id == "agt_test" && text == "fix the bug"
        ),
        "expected CursorProxySend, got {effects:?}"
    );
    assert!(effects.iter().all(|e| !matches!(e, Effect::SendPrompt { .. })));
}

#[test]
fn slash_help_stays_local_in_cursor_mode() {
    let mut app = test_app_with_agent();
    enter_cursor_client(&mut app);
    let effects = dispatch(Action::SendPrompt("/help".to_string()), &mut app);
    assert!(
        effects.iter().all(|e| !matches!(e, Effect::CursorProxySend { .. })),
        "slash commands must not go to Cursor, got {effects:?}"
    );
    assert!(app.agents[0].cursor_client.is_some());
}

#[test]
fn slash_model_leaves_cursor_mode() {
    let mut app = test_app_with_agent();
    enter_cursor_client(&mut app);
    app.agents[0].session.models.push(GrokModel {
        id: "grok-4.5".to_string(),
        name: "Grok 4.5".to_string(),
    });
    let effects = dispatch(Action::SendPrompt("/model Grok 4.5".to_string()), &mut app);
    assert!(app.agents[0].cursor_client.is_none());
    assert!(
        effects.iter().all(|e| !matches!(e, Effect::CursorProxySend { .. })),
        "leaving Cursor must not proxy, got {effects:?}"
    );
}

#[test]
fn activate_cursor_client_emits_create_agent() {
    let mut app = test_app_with_agent();
    let effects = dispatch(
        Action::ActivateCursorClient {
            model_id: "composer-2".to_string(),
            display_name: "Composer 2".to_string(),
        },
        &mut app,
    );
    assert!(
        matches!(
            effects.as_slice(),
            [Effect::CreateCursorAgent {
                model_id,
                display_name,
                ..
            }] if model_id == "composer-2" && display_name == "Composer 2"
        ),
        "expected CreateCursorAgent, got {effects:?}"
    );
}

#[test]
fn peer_inbound_forwards_when_client_active() {
    let mut app = test_app_with_agent();
    enter_cursor_client(&mut app);
    let effects = dispatch(
        Action::CursorProxyInbound {
            session_id: "test-session".to_string(),
            text: "from t1".to_string(),
            reply_to: Some("api".to_string()),
            from_name: Some("api".to_string()),
        },
        &mut app,
    );
    assert!(
        matches!(
            effects.as_slice(),
            [Effect::CursorProxySend {
                text,
                reply_to: Some(reply),
                ..
            }] if text == "from t1" && reply == "api"
        ),
        "expected proxy send with reply_to, got {effects:?}"
    );
}

#[test]
fn cursor_models_loaded_error_surfaces_login_hint() {
    let mut app = test_app_with_agent();
    clear_cached_models_for_test(&mut app.models);
    let effects = dispatch(
        Action::TaskComplete(TaskResult::CursorModelsLoaded {
            agent_id: AgentId(0),
            result: Err(
                "Cursor API key not set. Run `grok login-cursor` or export CURSOR_API_KEY"
                    .to_string(),
            ),
        }),
        &mut app,
    );
    assert!(effects.is_empty());
    assert!(cached_models(&app.models).is_none());
    let texts = notices(&app);
    assert!(
        texts.iter().any(|t| t.contains("login-cursor")),
        "missing-key fetch must tell the user to run grok login-cursor, got {texts:?}"
    );
}

#[test]
fn peer_inbound_ignored_when_not_client() {
    let mut app = test_app_with_agent();
    let effects = dispatch(
        Action::CursorProxyInbound {
            session_id: "test-session".to_string(),
            text: "from t1".to_string(),
            reply_to: Some("api".to_string()),
            from_name: Some("api".to_string()),
        },
        &mut app,
    );
    assert!(effects.is_empty());
}

#[test]
fn prompts_go_to_grok_outside_client_mode() {
    let mut app = test_app_with_agent();
    assert_eq!(
        dispatch_send_prompt(&mut app, "hello".to_string()),
        vec![Effect::SendPrompt { agent_id: AgentId(0), text: "hello".to_string() }]
    );
    assert_eq!(
        dispatch_send_prompt(&mut app, " /peers".to_string()),
        vec![Effect::RunSlashCommand { agent_id: AgentId(0), text: " /peers".to_string() }]
    );
    app.active_view = ActiveView::Home;
    assert!(dispatch_send_prompt(&mut app, "hello".to_string()).is_empty());
    app.active_view = ActiveView::Agent(AgentId(9));
    assert!(dispatch_send_prompt(&mut app, "hello".to_string()).is_empty());
}

#[test]
fn leaving_commands_delete_the_cursor_agent() {
    for command in ["/new", "/clear", "/home", "/quit", "/exit now"] {
        let mut app = test_app_with_agent();
        enter_cursor_client(&mut app);
        let _ = dispatch(Action::SendPrompt(command.to_string()), &mut app);
        assert!(app.agents[0].cursor_client.is_none(), "{command}");
        assert!(matches!(
            app.agents[0].pending_effects.as_slice(),
            [Effect::DeleteCursorAgent { cursor_agent_id, .. }] if cursor_agent_id == "agt_test"
        ));
        assert_eq!(app.desk.notes.len(), 1);
    }
}

#[test]
fn other_commands_stay_in_client_mode() {
    let models = vec![GrokModel { id: "grok-4.5".to_string(), name: "Grok 4.5".to_string() }];
    assert!(command_leaves_client(&models, "/model GROK-4.5"));
    assert!(!command_leaves_client(&models, "/model"));
    assert!(!command_leaves_client(&models, "/model gpt"));
    assert!(!command_leaves_client(&models, "/model-cursor grok-4.5"));
    assert!(!command_leaves_client(&models, "/newer"));
}

#[test]
fn models_are_fetched_for_the_agent_on_screen() {
    let mut app = test_app_with_agent();
    let fetch =
        vec![Effect::FetchCursorModels { agent_id: AgentId(0), cwd: "/w".to_string() }];
    assert_eq!(dispatch_fetch_cursor_models(&mut app), fetch);
    assert_eq!(dispatch(Action::FetchCursorModels, &mut app), fetch);
    let model = CursorModelChoice {
        id: "m".to_string(),
        display_name: "M".to_string(),
        description: String::new(),
    };
    assert!(handle_cursor_models_loaded(&mut app, AgentId(0), Ok(vec![model])).is_empty());
    assert_eq!(notices(&app), vec!["Cursor models loaded. Pick one with /model-cursor <name>."]);
    assert!(dispatch_fetch_cursor_models(&mut app).is_empty());
    app.active_view = ActiveView::Home;
    assert!(dispatch_fetch_cursor_models(&mut app).is_empty());
}

#[test]
fn activation_needs_a_session() {
    let mut app = test_app_with_agent();
    app.agents[0].session.session_id = None;
    let effects =
        dispatch_activate_cursor_client(&mut app, "m".to_string(), "M".to_string());
    assert!(effects.is_empty());
    assert_eq!(notices(&app), vec!["Start a session before /model-cursor."]);
}

#[test]
fn created_agents_start_client_mode() {
    let mut app = test_app_with_agent();
    let failed = handle_cursor_agent_created(
        &mut app,
        AgentId(0),
        "m".to_string(),
        "M".to_string(),
        Err("no key".to_string()),
    );
    assert!(failed.is_empty());
    assert_eq!(notices(&app), vec!["Failed to create Cursor agent: no key"]);
    let _ = dispatch(
        Action::TaskComplete(TaskResult::CursorAgentCreated {
            agent_id: AgentId(0),
            model_id: "m".to_string(),
            display_name: "M".to_string(),
            result: Ok("agt".to_string()),
        }),
        &mut app,
    );
    assert_eq!(app.agents[0].cursor_client.as_ref().unwrap().agent_id, "agt");
    assert_eq!(app.desk.notes[0].note.as_deref(), Some("cursor:m"));
    assert!(clear_cursor_client(&mut app, AgentId(0)));
    assert!(!clear_cursor_client(&mut app, AgentId(0)));
    assert!(!clear_cursor_client(&mut app, AgentId(8)));
    leave_cursor_client_if_active(&mut app, AgentId(0));
}

#[test]
fn peer_messages_are_shown_with_their_sender() {
    let mut app = test_app_with_agent();
    enter_cursor_client(&mut app);
    let _ = dispatch_cursor_proxy_inbound(
        &mut app,
        "test-session",
        "hi".to_string(),
        None,
        Some("api".to_string()),
    );
    assert_eq!(
        app.agents[0].scrollback.entries[0].block,
        RenderBlock::UserPrompt("[from api]\nhi".to_string())
    );
    let queued = dispatch_cursor_proxy_inbound(
        &mut app,
        "test-session",
        "more".to_string(),
        None,
        Some(String::new()),
    );
    assert!(queued.is_empty());
    assert_eq!(
        app.agents[0].scrollback.entries[1].block,
        RenderBlock::UserPrompt("more".to_string())
    );
    assert!(
        dispatch_cursor_proxy_inbound(&mut app, "other", "x".to_string(), None, None).is_empty()
    );
}

#[test]
fn completed_sends_are_shown_and_drained() {
    let mut app = test_app_with_agent();
    enter_cursor_client(&mut app);
    let _ = dispatch(Action::SendPrompt("one".to_string()), &mut app);
    let _ = dispatch(Action::SendPrompt("two".to_string()), &mut app);
    let next =
        handle_cursor_proxy_send_complete(&mut app, AgentId(0), Ok("  ".to_string()));
    assert!(matches!(next.as_slice(), [Effect::CursorProxySend { text, .. }] if text == "two"));
    let shown = &app.agents[0].scrollback.entries.last().unwrap().block;
    assert_eq!(
        *shown,
        RenderBlock::AgentMessage("(Cursor finished with no text.)".to_string())
    );
    let none = dispatch(
        Action::TaskComplete(TaskResult::CursorProxySendComplete {
            agent_id: AgentId(0),
            result: Err("timeout".to_string()),
        }),
        &mut app,
    );
    assert!(none.is_empty());
    assert_eq!(notices(&app).last().copied(), Some("Cursor send failed: timeout"));
    assert!(!app.agents[0].cursor_client.as_ref().unwrap().inflight);
    let text = handle_cursor_proxy_send_complete(&mut app, AgentId(0), Ok("done".to_string()));
    assert!(text.is_empty());
    assert_eq!(
        app.agents[0].scrollback.entries.last().unwrap().block,
        RenderBlock::AgentMessage("done".to_string())
    );
    assert!(handle_cursor_proxy_send_complete(&mut app, AgentId(4), Ok(String::new())).is_empty());
}

#[test]
fn streamed_replies_stand_on_screen_once() {
    let mut app = test_app_with_agent();
    enter_cursor_client(&mut app);
    let delta = |text: &str| CursorProxyProgress::AssistantDelta(text.to_string());
    let _ = dispatch(Action::SendPrompt("one".to_string()), &mut app);
    assert_eq!(app.agents[0].session.state, AgentState::TurnRunning);
    let _ = handle_cursor_proxy_progress(&mut app, AgentId(0), delta("Hi"));
    let shown = app.agents[0].scrollback.entries.len();
    assert!(app.agents[0].scrollback.entries[shown - 1].running);
    let done = handle_cursor_proxy_send_complete(&mut app, AgentId(0), Ok("Hi".to_string()));
    assert!(done.is_empty());
    assert_eq!(app.agents[0].scrollback.entries.len(), shown);
    let last = app.agents[0].scrollback.entries.last().unwrap();
    assert_eq!(last.block, RenderBlock::AgentMessage("Hi".to_string()));
    assert!(!last.running);
    let client = app.agents[0].cursor_client.as_ref().unwrap();
    assert!(!client.inflight);
    assert_eq!(client.activity, None);
    assert_eq!(client.stream_entry, None);
    assert_eq!(app.agents[0].session.state, AgentState::Idle);

    let _ = dispatch(Action::SendPrompt("two".to_string()), &mut app);
    let _ = dispatch(Action::SendPrompt("three".to_string()), &mut app);
    let _ = handle_cursor_proxy_progress(&mut app, AgentId(0), delta("half"));
    let next = handle_cursor_proxy_send_complete(&mut app, AgentId(0), Err("cut".to_string()));
    assert!(matches!(next.as_slice(), [Effect::CursorProxySend { text, .. }] if text == "three"));
    assert_eq!(notices(&app).last().copied(), Some("Cursor send failed: cut"));
    assert_eq!(app.agents[0].session.state, AgentState::TurnRunning);
    let client = app.agents[0].cursor_client.as_ref().unwrap();
    assert!(client.inflight);
    assert_eq!(client.activity.as_deref(), Some("working"));
}

#[test]
fn progress_reaches_the_agent() {
    let mut app = test_app_with_agent();
    enter_cursor_client(&mut app);
    let _ = dispatch(Action::SendPrompt("one".to_string()), &mut app);
    let _ = handle_cursor_proxy_progress(
        &mut app,
        AgentId(0),
        CursorProxyProgress::Status("step".to_string()),
    );
    assert_eq!(
        app.agents[0].cursor_client.as_ref().unwrap().activity.as_deref(),
        Some("step")
    );
    let _ = dispatch(
        Action::TaskComplete(TaskResult::CursorProxyProgress {
            agent_id: AgentId(7),
            event: CursorProxyProgress::Status("x".to_string()),
        }),
        &mut app,
    );
}

#[test]
fn commands_from_peers_are_plain_text() {
    let mut app = test_app_with_agent();
    enter_cursor_client(&mut app);
    let effects = dispatch_cursor_proxy_inbound(
        &mut app,
        "test-session",
        "/quit".to_string(),
        Some("api".to_string()),
        None,
    );
    assert!(matches!(
        effects.as_slice(),
        [Effect::CursorProxySend { text, reply_to: Some(to), .. }] if text == "/quit" && to == "api"
    ));
    assert!(app.agents[0].cursor_client.is_some());
}
