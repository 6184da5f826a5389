use grok_peers::client::{AgentSummary, CreateAgentResult, SendResult};
use grok_peers::error::CursorSdkError;
use grok_peers::inbox::InboxSendError;
use grok_peers::registry::{PeerRecord, Timestamp};
use grok_peers::tools::{
    CursorCallError, CursorCreateAgentInput, CursorCreateAgentTool, CursorListAgentsInput,
    CursorListAgentsTool, CursorListModelsInput, CursorListModelsTool, CursorModelInfo,
    CursorSendInput, CursorSendTool, ListPeersInput, ListPeersTool, SendMessageInput,
    SendMessageTool, ToolKind, ToolNamespace, ToolScope,
};

fn live() -> Vec<PeerRecord> {
    let peer = |id: &str, name: &str| PeerRecord {
        session_id: id.to_string(),
        name: name.to_string(),
        cwd: format!("/w/{name}"),
        pid: 1,
        inbox_path: format!("/tmp/{name}.sock"),
        updated_at: Timestamp { secs: 1, nanos: 0 },
        note: Some(format!("note-{name}")),
    };
    vec![peer("self-1", "me"), peer("0123456789-ab", "api")]
}

fn message(to: &str, message: &str) -> SendMessageInput {
    SendMessageInput { to: to.to_string(), message: message.to_string() }
}

#[test]
fn list_peers_tool_tells_of_the_others() {
    let out = ListPeersTool
        .run("self-1", &ListPeersInput { filter: Some(" AP ".to_string()) }, || Ok(live()))
        .unwrap();
    assert_eq!(out.self_name.as_deref(), Some("me"));
    assert_eq!(out.self_session_id, "self-1");
    assert_eq!(out.peers.len(), 1);
    assert_eq!(out.peers[0].name, "api");
    assert_eq!(out.peers[0].cwd, "/w/api");
    assert_eq!(out.peers[0].short_id, "456789ab");
    assert_eq!(out.peers[0].note.as_deref(), Some("note-api"));
    let stranger = ListPeersTool.run("", &ListPeersInput { filter: None }, || Ok(live())).unwrap();
    assert_eq!(stranger.self_name, None);
    assert_eq!(stranger.peers.len(), 2);
    let err = ListPeersTool
        .run("", &ListPeersInput { filter: None }, || Err("locked".to_string()))
        .unwrap_err();
    assert_eq!(err.code, "peer_list_failed");
    assert_eq!(err.message, "Failed to list live peers: locked");
}

#[test]
fn send_message_tool_delivers() {
    let out = SendMessageTool
        .run("self-1", &message(" api ", " hi "), || Ok(live()), |path, env| {
            assert_eq!(path, "/tmp/api.sock");
            assert_eq!(env.from_name, "me");
            assert_eq!(env.from_session_id, "self-1");
            assert_eq!(env.message, "hi");
            assert_eq!(env.reply_to.as_deref(), Some("me"));
            Ok(())
        })
        .unwrap();
    assert_eq!(out.status, "delivered");
    assert_eq!(out.detail, "Message delivered to peer 'api'.");
    let failed = SendMessageTool
        .run("x", &message("api", "hi"), || Ok(live()), |_, env| {
            assert_eq!(env.from_name, "unknown");
            Err(InboxSendError::Write("gone".to_string()))
        })
        .unwrap();
    assert_eq!(failed.status, "unreachable");
    assert_eq!(failed.detail, "Failed to deliver to 'api': write failed: gone");
    let nobody = SendMessageTool
        .run("x", &message("db", "hi"), || Ok(live()), |_, _| panic!("no target"))
        .unwrap();
    assert_eq!(nobody.to_name, "db");
    assert_eq!(nobody.to_session_id, "");
}

#[test]
fn send_message_tool_sends_nothing_to_several() {
    let peer = |id: &str, name: &str| PeerRecord {
        session_id: id.to_string(),
        name: name.to_string(),
        cwd: "/w".to_string(),
        pid: 1,
        inbox_path: "/tmp/x.sock".to_string(),
        updated_at: Timestamp { secs: 1, nanos: 0 },
        note: None,
    };
    let peers = || Ok(vec![peer("self-api", "me"), peer("s-1", "API"), peer("x-api", "web")]);
    let out = SendMessageTool
        .run("self-api", &message(" api ", "hi"), peers, |_, _| panic!("several targets"))
        .unwrap();
    assert_eq!(out.status, "ambiguous");
    assert_eq!(out.to_name, "api");
    assert_eq!(
        out.detail,
        "Multiple peers match 'api': API (s-1), web (x-api). Address by full session id."
    );
}

#[test]
fn send_message_tool_refuses_in_order() {
    let unused = || -> Result<Vec<PeerRecord>, String> { panic!("not listed") };
    let code = |r: Result<grok_peers::tools::SendMessageOutput, grok_peers::tools::ToolError>| {
        r.unwrap_err().code
    };
    assert_eq!(
        code(SendMessageTool.run("x", &message("", " "), unused, |_, _| panic!("nothing to send"))),
        "empty_message"
    );
    assert_eq!(
        code(SendMessageTool.run("x", &message("", &"x".repeat(32_769)), unused, |_, _| panic!("nothing to send"))),
        "message_too_large"
    );
    assert_eq!(
        code(SendMessageTool.run(
            "x",
            &message("", "hi"),
            || Err("locked".to_string()),
            |_, _| panic!("nothing to send")
        )),
        "peer_list_failed"
    );
    assert_eq!(
        code(SendMessageTool.run("x", &message(" ", "hi"), || Ok(live()), |_, _| panic!("nothing to send"))),
        "missing_target"
    );
}

#[test]
fn tool_metadata() {
    assert_eq!(ListPeersTool.id(), "list_peers");
    assert_eq!(SendMessageTool.id(), "send_message");
    assert_eq!(CursorListModelsTool.id(), "cursor_list_models");
    assert_eq!(CursorCreateAgentTool.id(), "cursor_create_agent");
    assert_eq!(CursorSendTool.id(), "cursor_send");
    assert_eq!(CursorListAgentsTool.id(), "cursor_list_agents");
    assert_eq!(ListPeersTool.kind(), ToolKind::List);
    assert_eq!(SendMessageTool.kind(), ToolKind::AskUser);
    assert_eq!(CursorListModelsTool.kind(), ToolKind::List);
    assert_eq!(CursorCreateAgentTool.kind(), ToolKind::Execute);
    assert_eq!(CursorSendTool.kind(), ToolKind::Execute);
    assert_eq!(CursorListAgentsTool.kind(), ToolKind::List);
    assert_eq!(ListPeersTool.tool_namespace(), ToolNamespace::GrokBuild);
    assert_eq!(SendMessageTool.tool_namespace(), ToolNamespace::GrokBuild);
    assert_eq!(CursorSendTool.tool_namespace(), ToolNamespace::Cursor);
    assert_eq!(CursorListModelsTool.tool_namespace(), ToolNamespace::Cursor);
    assert_eq!(CursorCreateAgentTool.tool_namespace(), ToolNamespace::Cursor);
    assert_eq!(CursorListAgentsTool.tool_namespace(), ToolNamespace::Cursor);
    assert!(ListPeersTool.capabilities().is_read_only);
    assert!(!SendMessageTool.capabilities().is_read_only);
    assert_eq!(SendMessageTool.capabilities().tool_scope, ToolScope::Read);
    assert_eq!(CursorCreateAgentTool.capabilities().tool_scope, ToolScope::Write);
    assert_eq!(CursorSendTool.capabilities().tool_scope, ToolScope::Write);
    assert!(CursorListModelsTool.capabilities().is_read_only);
    assert!(CursorListAgentsTool.capabilities().is_read_only);
    assert!(SendMessageTool.description_template().contains("Do not send greetings"));
    assert!(ListPeersTool.description_template().contains("Do not poll list_peers"));
    assert!(CursorSendTool.description_template().starts_with("Send a prompt"));
    assert!(CursorCreateAgentTool.description_template().ends_with("cursor_send."));
    assert!(CursorListModelsTool.description_template().contains("grok login-cursor"));
    assert!(CursorListAgentsTool.description_template().contains("agent_id"));
}

#[test]
fn cursor_create_agent_checks_the_model() {
    let input = |model: &str| CursorCreateAgentInput {
        model: model.to_string(),
        name: Some("n".to_string()),
    };
    let err = CursorCreateAgentTool.run(input("  "), |_, _| panic!("no model")).unwrap_err();
    assert_eq!(err.code, "missing_model");
    assert_eq!(err.message, "model is required (from cursor_list_models)");
    let made = CursorCreateAgentTool
        .run(input(" composer-2 "), |model, name| {
            assert_eq!(model, "composer-2");
            assert_eq!(name.as_deref(), Some("n"));
            Ok(CreateAgentResult::from_reply("agt".to_string(), None))
        })
        .unwrap();
    assert_eq!((made.agent_id.as_str(), made.model.as_str()), ("agt", ""));
    let none = CursorCreateAgentTool
        .run(input("m"), |_, _| {
            Err(CursorCallError::NoClient(CursorSdkError::missing_api_key()))
        })
        .unwrap_err();
    assert_eq!(none.code, "cursor_sdk");
    let failed = CursorCreateAgentTool
        .run(input("m"), |_, _| {
            Err(CursorCallError::Failed(CursorSdkError::message("boom".to_string())))
        })
        .unwrap_err();
    assert_eq!(failed.code, "cursor_create_agent");
    assert_eq!(failed.message, "boom");
}

#[test]
fn cursor_send_checks_its_input() {
    let input = |agent: &str, text: &str| CursorSendInput {
        agent_id: agent.to_string(),
        message: text.to_string(),
    };
    let no_agent = CursorSendTool.run(&input(" ", " "), |_, _| panic!("no agent")).unwrap_err();
    assert_eq!(no_agent.code, "missing_agent_id");
    let blank = CursorSendTool.run(&input("a", " "), |_, _| panic!("blank")).unwrap_err();
    assert_eq!(blank.code, "empty_message");
    let sent = CursorSendTool
        .run(&input(" a ", " hi "), |agent, text| {
            assert_eq!((agent, text), ("a", "hi"));
            Ok(SendResult {
                run_id: "r".to_string(),
                text: "t".to_string(),
                status: "s".to_string(),
                error: Some("e".to_string()),
            })
        })
        .unwrap();
    assert_eq!(sent.run_id, "r");
    assert_eq!(sent.text, "t");
    assert_eq!(sent.status, "s");
    assert_eq!(sent.error.as_deref(), Some("e"));
    let failed = CursorSendTool
        .run(&input("a", "hi"), |_, _| {
            Err(CursorCallError::Failed(CursorSdkError::Http("down".to_string())))
        })
        .unwrap_err();
    assert_eq!((failed.code.as_str(), failed.message.as_str()), ("cursor_send", "down"));
}

#[test]
fn cursor_lists_are_passed_on() {
    let models = CursorListModelsTool
        .run(&CursorListModelsInput {}, || {
            Ok(vec![CursorModelInfo {
                id: "m".to_string(),
                display_name: "M".to_string(),
                description: "d".to_string(),
            }])
        })
        .unwrap();
    assert_eq!(models.models[0].display_name, "M");
    let failed = CursorListModelsTool
        .run(&CursorListModelsInput {}, || {
            Err(CursorCallError::Failed(CursorSdkError::Io("x".to_string())))
        })
        .unwrap_err();
    assert_eq!(failed.code, "cursor_list_models");
    let agents = CursorListAgentsTool
        .run(&CursorListAgentsInput {}, || {
            Ok(vec![AgentSummary {
                agent_id: "a".to_string(),
                name: "n".to_string(),
                summary: "s".to_string(),
                archived: true,
            }])
        })
        .unwrap();
    assert_eq!(agents.agents.len(), 1);
    assert_eq!(agents.agents[0].summary, "s");
    assert!(agents.agents[0].archived);
    let err = CursorListAgentsTool
        .run(&CursorListAgentsInput {}, || {
            Err(CursorCallError::Failed(CursorSdkError::Json("x".to_string())))
        })
        .unwrap_err();
    assert_eq!(err.code, "cursor_list_agents");
}
