//! Minimal stdio MCP server: `list_peers` + `send_message` for a Cursor seat.

use vstd::prelude::*;

use serde_json::Value;

use crate::inbox::{InboxEnvelope, InboxSendError};
use crate::json;
use crate::json::{
    get_text, json_array, json_bool, json_clone, json_get, json_integer, json_null,
    json_text, render_json, Fields, Tree,
};
use crate::registry::PeerRecord;
use crate::send;
use crate::send::{list_peers_for, send_to_live_peer, PeerSendOutput, SendReport};
use crate::text;

verus! {

/// Env injected by `/model-cursor` when spawning this server.
pub const PEER_SESSION_ID_ENV: &'static str = "GROK_PEER_SESSION_ID";

/// Env injected by `/model-cursor` when spawning this server.
pub const PEER_NAME_ENV: &'static str = "GROK_PEER_NAME";

/// The protocol version spoken when the client asks for none that is supported.
pub const PROTOCOL_VERSION: &'static str = "2024-11-05";

/// The tool that lists the other live sessions.
pub const LIST_PEERS: &'static str = "list_peers";

/// The tool that sends a message to another live session.
pub const SEND_MESSAGE: &'static str = "send_message";

/// The session that the server speaks for.
#[derive(Debug)]
pub struct PeerIdentity {
    pub session_id: String,
    pub name: String,
}

impl Clone for PeerIdentity {
    fn clone(&self) -> (r: Self)
        ensures
            r == *self,
    {
        PeerIdentity {
            session_id: self.session_id.clone(),
            name: self.name.clone(),
        }
    }
}

impl PeerIdentity {
    /// The identity given by the two environment variables: no session id is an
    /// empty one, and a missing or blank name is `unknown`.
    pub fn from_env(session_id: Option<String>, name: Option<String>) -> (r: Self)
        ensures
            r.session_id@ == match session_id {
                Some(s) => s@,
                None => ""@,
            },
            r.name@ == match name {
                Some(s) => if text::trimmed(s@).len() > 0 {
                    text::trimmed(s@)
                } else {
                    "unknown"@
                },
                None => "unknown"@,
            },
    {
        let id = match session_id {
            Some(s) => s,
            None => "".to_owned(),
        };
        let shown = match name {
            Some(s) => {
                let trimmed = text::trim(s.as_str());
                if trimmed.as_str().is_empty() {
                    "unknown".to_owned()
                } else {
                    trimmed
                }
            },
            None => "unknown".to_owned(),
        };
        PeerIdentity { session_id: id, name: shown }
    }
}

// -- initialize -------------------------------------------------------------

/// A protocol version that the server speaks.
pub open spec fn supported_version(v: Seq<char>) -> bool {
    v == "2024-11-05"@ || v == "2025-03-26"@ || v == "2025-06-18"@
}

/// The version to answer: the requested one if it is supported, else the
/// server's own.
pub open spec fn version_for(requested: Option<Seq<char>>) -> Seq<char> {
    match requested {
        Some(v) => if supported_version(v) {
            v
        } else {
            PROTOCOL_VERSION@
        },
        None => PROTOCOL_VERSION@,
    }
}

/// An object without members.
pub open spec fn empty_object() -> Tree {
    Tree::Object(Map::empty())
}

/// The result of `initialize`.
pub open spec fn initialize_tree(params: Tree) -> Tree {
    Tree::Object(
        Map::empty().insert(
            "protocolVersion"@,
            Tree::Text(version_for(json::text_member(params, "protocolVersion"@))),
        ).insert(
            "capabilities"@,
            Tree::Object(Map::empty().insert("tools"@, empty_object())),
        ).insert(
            "serverInfo"@,
            Tree::Object(
                Map::empty().insert("name"@, Tree::Text("grok-peers"@)).insert(
                    "version"@,
                    Tree::Text("0.1.0"@),
                ),
            ),
        ),
    )
}

fn is_supported_version(v: &str) -> (r: bool)
    ensures
        r == supported_version(v@),
{
    text::same_text(v, "2024-11-05") || text::same_text(v, "2025-03-26") || text::same_text(
        v,
        "2025-06-18",
    )
}

fn initialize_result(params: &Value) -> (r: Value)
    ensures
        json::json_tree(r) == initialize_tree(json::json_tree(*params)),
{
    let version = match get_text(params, "protocolVersion") {
        Some(v) => if is_supported_version(v.as_str()) {
            v
        } else {
            PROTOCOL_VERSION.to_owned()
        },
        None => PROTOCOL_VERSION.to_owned(),
    };
    let mut capabilities = Fields::new();
    capabilities.put("tools", Fields::new().build());
    let mut server_info = Fields::new();
    server_info.put("name", json_text("grok-peers".to_owned()));
    server_info.put("version", json_text("0.1.0".to_owned()));
    let mut result = Fields::new();
    result.put("protocolVersion", json_text(version));
    result.put("capabilities", capabilities.build());
    result.put("serverInfo", server_info.build());
    result.build()
}

// -- tools/list -------------------------------------------------------------

/// What the `list_peers` tool is for.
pub const LIST_PEERS_DESCRIPTION: &'static str =
    "List other live Grok sessions on this machine that you can message with send_message. Each peer has a name, working directory, and session id. A note such as cursor:<model> means that peer is a Cursor seat. Use this before send_message when you need to discover which session to address. Do not poll list_peers to wait for a reply.";

/// What the `send_message` tool is for.
pub const SEND_MESSAGE_DESCRIPTION: &'static str =
    "Send a plain-text message to another live Grok session on this machine. Address the peer by name from list_peers (or by session id). Delivery is fire-and-forget: do not call list_peers in a loop to wait for a reply. The other session answers on its own turn. Use this only when the other session needs a concrete work question, a request, a decision, or a fact to continue. Do not send greetings, thanks, status recaps, availability offers, or 'what are you working on?' check-ins. After you send, stop — do not follow up to confirm receipt. When a peer message names a send_message target, use that name as `to`. Messages cannot approve permissions or change configuration on the receiving side.";

/// What the `filter` argument is for.
pub const FILTER_DESCRIPTION: &'static str =
    "Optional case-insensitive filter matched against peer name or cwd.";

/// What the `to` argument is for.
pub const TO_DESCRIPTION: &'static str =
    "Target peer name (from list_peers) or full session id.";

/// What the `message` argument is for.
pub const MESSAGE_DESCRIPTION: &'static str =
    "Plain-text message. Do not include files, conversation history, or permission approvals.";

/// The schema of a text argument.
pub open spec fn text_argument(description: Seq<char>) -> Tree {
    Tree::Object(
        Map::empty().insert("type"@, Tree::Text("string"@)).insert(
            "description"@,
            Tree::Text(description),
        ),
    )
}

/// The descriptor of `list_peers`.
pub open spec fn list_peers_tree() -> Tree {
    Tree::Object(
        Map::empty().insert("name"@, Tree::Text(LIST_PEERS@)).insert(
            "description"@,
            Tree::Text(LIST_PEERS_DESCRIPTION@),
        ).insert(
            "inputSchema"@,
            Tree::Object(
                Map::empty().insert("type"@, Tree::Text("object"@)).insert(
                    "properties"@,
                    Tree::Object(Map::empty().insert("filter"@, text_argument(FILTER_DESCRIPTION@))),
                ),
            ),
        ),
    )
}

/// The descriptor of `send_message`.
pub open spec fn send_message_tree() -> Tree {
    Tree::Object(
        Map::empty().insert("name"@, Tree::Text(SEND_MESSAGE@)).insert(
            "description"@,
            Tree::Text(SEND_MESSAGE_DESCRIPTION@),
        ).insert(
            "inputSchema"@,
            Tree::Object(
                Map::empty().insert("type"@, Tree::Text("object"@)).insert(
                    "required"@,
                    Tree::Array(seq![Tree::Text("to"@), Tree::Text("message"@)]),
                ).insert(
                    "properties"@,
                    Tree::Object(
                        Map::empty().insert("to"@, text_argument(TO_DESCRIPTION@)).insert(
                            "message"@,
                            text_argument(MESSAGE_DESCRIPTION@),
                        ),
                    ),
                ),
            ),
        ),
    )
}

/// The tools on offer.
pub open spec fn tools_tree() -> Seq<Tree> {
    seq![list_peers_tree(), send_message_tree()]
}

fn text_argument_schema(description: &str) -> (r: Value)
    ensures
        json::json_tree(r) == text_argument(description@),
{
    let mut schema = Fields::new();
    schema.put("type", json_text("string".to_owned()));
    schema.put("description", json_text(description.to_owned()));
    schema.build()
}

fn list_peers_descriptor() -> (r: Value)
    ensures
        json::json_tree(r) == list_peers_tree(),
{
    let mut properties = Fields::new();
    properties.put("filter", text_argument_schema(FILTER_DESCRIPTION));
    let mut schema = Fields::new();
    schema.put("type", json_text("object".to_owned()));
    schema.put("properties", properties.build());
    let mut tool = Fields::new();
    tool.put("name", json_text(LIST_PEERS.to_owned()));
    tool.put("description", json_text(LIST_PEERS_DESCRIPTION.to_owned()));
    tool.put("inputSchema", schema.build());
    tool.build()
}

fn send_message_descriptor() -> (r: Value)
    ensures
        json::json_tree(r) == send_message_tree(),
{
    let mut required: Vec<Value> = Vec::new();
    required.push(json_text("to".to_owned()));
    required.push(json_text("message".to_owned()));
    proof {
        assert(json::trees(required@) =~= seq![Tree::Text("to"@), Tree::Text("message"@)]);
    }
    let mut properties = Fields::new();
    properties.put("to", text_argument_schema(TO_DESCRIPTION));
    properties.put("message", text_argument_schema(MESSAGE_DESCRIPTION));
    let mut schema = Fields::new();
    schema.put("type", json_text("object".to_owned()));
    schema.put("required", json_array(required));
    schema.put("properties", properties.build());
    let mut tool = Fields::new();
    tool.put("name", json_text(SEND_MESSAGE.to_owned()));
    tool.put("description", json_text(SEND_MESSAGE_DESCRIPTION.to_owned()));
    tool.put("inputSchema", schema.build());
    tool.build()
}

fn tool_descriptors() -> (r: Vec<Value>)
    ensures
        json::trees(r@) == tools_tree(),
{
    let mut tools: Vec<Value> = Vec::new();
    tools.push(list_peers_descriptor());
    tools.push(send_message_descriptor());
    proof {
        assert(json::trees(tools@) =~= tools_tree());
    }
    tools
}

// -- tools/call -------------------------------------------------------------

/// A tool result that holds one text.
pub open spec fn tool_text_tree(shown: Seq<char>, is_error: bool) -> Tree {
    Tree::Object(
        Map::empty().insert(
            "content"@,
            Tree::Array(
                seq![
                    Tree::Object(
                        Map::empty().insert("type"@, Tree::Text("text"@)).insert(
                            "text"@,
                            Tree::Text(shown),
                        ),
                    ),
                ],
            ),
        ).insert("isError"@, Tree::Bool(is_error)),
    )
}

fn tool_text(shown: String, is_error: bool) -> (r: Value)
    ensures
        json::json_tree(r) == tool_text_tree(shown@, is_error),
{
    let mut block = Fields::new();
    block.put("type", json_text("text".to_owned()));
    block.put("text", json_text(shown));
    let mut content: Vec<Value> = Vec::new();
    content.push(block.build());
    proof {
        assert(json::trees(content@) =~= seq![json::json_tree(content@[0])]);
    }
    let mut result = Fields::new();
    result.put("content", json_array(content));
    result.put("isError", json_bool(is_error));
    result.build()
}

/// One listed peer.
pub open spec fn peer_tree(p: PeerRecord) -> Tree {
    Tree::Object(
        Map::empty().insert("name"@, Tree::Text(p.name@)).insert(
            "session_id"@,
            Tree::Text(p.session_id@),
        ).insert("cwd"@, Tree::Text(p.cwd@)).insert(
            "note"@,
            match p.note {
                Some(note) => Tree::Text(note@),
                None => Tree::Null,
            },
        ),
    )
}

/// The listed peers.
pub open spec fn peer_trees(peers: Seq<PeerRecord>) -> Seq<Tree> {
    Seq::new(peers.len(), |i: int| peer_tree(peers[i]))
}

/// What `list_peers` tells of the listed peers and of the session itself.
pub open spec fn listing_tree(
    peers: Seq<PeerRecord>,
    self_name: Seq<char>,
    self_session_id: Seq<char>,
) -> Tree {
    Tree::Object(
        Map::empty().insert("peers"@, Tree::Array(peer_trees(peers))).insert(
            "self_name"@,
            Tree::Text(self_name),
        ).insert("self_session_id"@, Tree::Text(self_session_id)),
    )
}

/// What `send_message` tells of the outcome.
pub open spec fn report_tree(report: SendReport) -> Tree {
    Tree::Object(
        Map::empty().insert("status"@, Tree::Text(report.status)).insert(
            "to_name"@,
            Tree::Text(report.to_name),
        ).insert("to_session_id"@, Tree::Text(report.to_session_id)).insert(
            "detail"@,
            Tree::Text(report.detail),
        ),
    )
}

fn peer_row(p: &PeerRecord) -> (r: Value)
    ensures
        json::json_tree(r) == peer_tree(*p),
{
    let note = match &p.note {
        Some(note) => json_text(note.clone()),
        None => json_null(),
    };
    let mut row = Fields::new();
    row.put("name", json_text(p.name.clone()));
    row.put("session_id", json_text(p.session_id.clone()));
    row.put("cwd", json_text(p.cwd.clone()));
    row.put("note", note);
    row.build()
}

fn listing_text(peers: &Vec<PeerRecord>, identity: &PeerIdentity) -> (r: String)
    ensures
        r@ == json::rendered_json(listing_tree(peers@, identity.name@, identity.session_id@)),
{
    let mut rows: Vec<Value> = Vec::new();
    let mut i: usize = 0;
    while i < peers.len()
        invariant
            i <= peers@.len(),
            json::trees(rows@) == peer_trees(peers@.take(i as int)),
        decreases peers@.len() - i,
    {
        let ghost before = rows@;
        rows.push(peer_row(&peers[i]));
        proof {
            assert(json::trees(rows@) =~= json::trees(before).push(peer_tree(peers@[i as int])));
            assert(peer_trees(peers@.take(i + 1)) =~= peer_trees(peers@.take(i as int)).push(
                peer_tree(peers@[i as int]),
            ));
        }
        i += 1;
    }
    assert(peers@.take(peers@.len() as int) =~= peers@);
    let mut listing = Fields::new();
    listing.put("peers", json_array(rows));
    listing.put("self_name", json_text(identity.name.clone()));
    listing.put("self_session_id", json_text(identity.session_id.clone()));
    render_json(&listing.build())
}

fn report_text(out: &PeerSendOutput) -> (r: String)
    ensures
        r@ == json::rendered_json(report_tree(out@)),
{
    let mut report = Fields::new();
    report.put("status", json_text(out.status.clone()));
    report.put("to_name", json_text(out.to_name.clone()));
    report.put("to_session_id", json_text(out.to_session_id.clone()));
    report.put("detail", json_text(out.detail.clone()));
    render_json(&report.build())
}

/// A message that was delivered, to be stamped as the session's last send.
#[derive(Debug, PartialEq, Eq)]
pub struct SentMessage {
    pub to: String,
    pub to_name: String,
    pub to_session_id: String,
}

/// The outcome of a tool call.
pub struct ToolReply {
    /// The result to answer with.
    pub result: Value,
    /// The message that was delivered, if one was.
    pub sent: Option<SentMessage>,
}

/// The argument `key`, or an empty text.
pub open spec fn argument(params: Tree, key: Seq<char>) -> Seq<char> {
    match json::as_text(json::member_of(json::member(params, "arguments"@), key)) {
        Some(s) => s,
        None => ""@,
    }
}

/// `sent` tells of the report of a message to `to`: of a delivery, and of
/// nothing else.
pub open spec fn tells_of_delivery(
    sent: Option<SentMessage>,
    to: Seq<char>,
    report: SendReport,
) -> bool {
    match sent {
        Some(s) => report.status == "delivered"@ && s.to@ == to && s.to_name@ == report.to_name
            && s.to_session_id@ == report.to_session_id,
        None => report.status != "delivered"@,
    }
}

/// The name of the tool that is called.
pub open spec fn called_tool(params: Tree) -> Seq<char> {
    match json::text_member(params, "name"@) {
        Some(s) => s,
        None => ""@,
    }
}

/// Listing the peers for a tool call may give `result`.
pub open spec fn lists<L: FnOnce() -> Result<Vec<PeerRecord>, String>>(
    list_live: L,
    params: Tree,
    identity: PeerIdentity,
    result: Tree,
) -> bool {
    let filter = json::as_text(json::member_of(json::member(params, "arguments"@), "filter"@));
    exists|listing: Result<Vec<PeerRecord>, String>| #[trigger]
        list_live.ensures((), listing) && result == match listing {
            Ok(live) => tool_text_tree(
                json::rendered_json(
                    listing_tree(
                        send::shown_peers(live@, identity.session_id@, filter),
                        identity.name@,
                        identity.session_id@,
                    ),
                ),
                false,
            ),
            Err(e) => tool_text_tree("Failed to list live peers: "@ + e@, true),
        }
}

/// The result of sending a message with the tool.
pub open spec fn sent_tree(report: SendReport) -> Tree {
    tool_text_tree(json::rendered_json(report_tree(report)), report.status != "delivered"@)
}

/// Sending a message for a tool call may give `result` and `sent`.
pub open spec fn sends_message<
    L: FnOnce() -> Result<Vec<PeerRecord>, String>,
    D: FnOnce(&str, &InboxEnvelope) -> Result<(), InboxSendError>,
>(
    list_live: L,
    deliver: D,
    params: Tree,
    identity: PeerIdentity,
    result: Tree,
    sent: Option<SentMessage>,
) -> bool {
    exists|report: SendReport|
        {
            &&& #[trigger] send::sends(
                list_live,
                deliver,
                identity.name@,
                identity.session_id@,
                argument(params, "to"@),
                argument(params, "message"@),
                report,
            )
            &&& result == sent_tree(report)
            &&& tells_of_delivery(sent, argument(params, "to"@), report)
        }
}

/// A tool call may give `result` and `sent`.
pub open spec fn calls_tool<
    L: FnOnce() -> Result<Vec<PeerRecord>, String>,
    D: FnOnce(&str, &InboxEnvelope) -> Result<(), InboxSendError>,
>(
    list_live: L,
    deliver: D,
    params: Tree,
    identity: PeerIdentity,
    result: Tree,
    sent: Option<SentMessage>,
) -> bool {
    if called_tool(params) == LIST_PEERS@ {
        lists(list_live, params, identity, result) && sent is None
    } else if called_tool(params) == SEND_MESSAGE@ {
        sends_message(list_live, deliver, params, identity, result, sent)
    } else {
        result == tool_text_tree("Unknown tool: "@ + called_tool(params), true) && sent is None
    }
}

/// The message that a tool call sends, if it sends one, can be reported with
/// these live peers.
pub open spec fn can_report_call(
    params: Tree,
    identity: PeerIdentity,
    live: Seq<PeerRecord>,
) -> bool {
    is_send(params) ==> send::can_report(
        live,
        identity.session_id@,
        text::trimmed(argument(params, "to"@)),
    )
}

/// The tool call sends a message that is not refused.
pub open spec fn is_send(params: Tree) -> bool {
    called_tool(params) == SEND_MESSAGE@ && send::refusal(
        argument(params, "to"@),
        argument(params, "message"@),
    ) is None
}

/// Where the tool call needs the live peers, `list_live` may be called, and the call
/// can be reported whatever it lists.
pub open spec fn lists_for_call<L: FnOnce() -> Result<Vec<PeerRecord>, String>>(
    list_live: L,
    params: Tree,
    identity: PeerIdentity,
) -> bool {
    &&& called_tool(params) == LIST_PEERS@ || is_send(params) ==> list_live.requires(())
    &&& forall|live: Vec<PeerRecord>| #[trigger]
        list_live.ensures((), Ok::<Vec<PeerRecord>, String>(live)) ==> can_report_call(
            params,
            identity,
            live@,
        )
}

/// Where the tool call sends a message, `deliver` may be called for the one peer
/// that it is routed to.
pub open spec fn delivers_for_call<
    L: FnOnce() -> Result<Vec<PeerRecord>, String>,
    D: FnOnce(&str, &InboxEnvelope) -> Result<(), InboxSendError>,
>(list_live: L, deliver: D, params: Tree, identity: PeerIdentity) -> bool {
    is_send(params) ==> send::delivers_to_target(
        list_live,
        deliver,
        identity.name@,
        identity.session_id@,
        argument(params, "to"@),
        argument(params, "message"@),
    )
}

fn tool_argument(params: &Value, key: &str) -> (r: Option<String>)
    ensures
        match r {
            Some(s) => json::as_text(
                json::member_of(json::member(json::json_tree(*params), "arguments"@), key@),
            ) == Some(s@),
            None => json::as_text(
                json::member_of(json::member(json::json_tree(*params), "arguments"@), key@),
            ) is None,
        },
{
    match json_get(params, "arguments") {
        Some(args) => get_text(args, key),
        None => None,
    }
}

fn call_list_peers<L: FnOnce() -> Result<Vec<PeerRecord>, String>>(
    params: &Value,
    identity: &PeerIdentity,
    list_live: L,
) -> (r: Value)
    requires
        list_live.requires(()),
    ensures
        lists(list_live, json::json_tree(*params), *identity, json::json_tree(r)),
{
    let filter = tool_argument(params, "filter");
    let wanted: Option<&str> = match &filter {
        Some(f) => Some(f.as_str()),
        None => None,
    };
    match list_peers_for(identity.session_id.as_str(), wanted, list_live) {
        Ok(peers) => tool_text(listing_text(&peers, identity), false),
        Err(e) => tool_text("Failed to list live peers: ".to_owned().concat(e.as_str()), true),
    }
}

fn call_send_message<
    L: FnOnce() -> Result<Vec<PeerRecord>, String>,
    D: FnOnce(&str, &InboxEnvelope) -> Result<(), InboxSendError>,
>(params: &Value, identity: &PeerIdentity, list_live: L, deliver: D) -> (r: ToolReply)
    requires
        called_tool(json::json_tree(*params)) == SEND_MESSAGE@,
        lists_for_call(list_live, json::json_tree(*params), *identity),
        delivers_for_call(list_live, deliver, json::json_tree(*params), *identity),
    ensures
        sends_message(
            list_live,
            deliver,
            json::json_tree(*params),
            *identity,
            json::json_tree(r.result),
            r.sent,
        ),
{
    let to = match tool_argument(params, "to") {
        Some(s) => s,
        None => "".to_owned(),
    };
    let message = match tool_argument(params, "message") {
        Some(s) => s,
        None => "".to_owned(),
    };
    let ghost p = json::json_tree(*params);
    assert(to@ == argument(p, "to"@));
    assert(message@ == argument(p, "message"@));
    let out = send_to_live_peer(
        identity.name.as_str(),
        identity.session_id.as_str(),
        to.as_str(),
        message.as_str(),
        list_live,
        deliver,
    );
    assert(send::sends(
        list_live,
        deliver,
        identity.name@,
        identity.session_id@,
        argument(p, "to"@),
        argument(p, "message"@),
        out@,
    ));
    let delivered: bool = out.is_delivered();
    let result = tool_text(report_text(&out), !delivered);
    let sent = if delivered {
        Some(
            SentMessage {
                to,
                to_name: out.to_name.clone(),
                to_session_id: out.to_session_id.clone(),
            },
        )
    } else {
        None
    };
    assert(json::json_tree(result) == sent_tree(out@));
    assert(tells_of_delivery(sent, argument(p, "to"@), out@));
    ToolReply { result, sent }
}

fn call_tool<
    L: FnOnce() -> Result<Vec<PeerRecord>, String>,
    D: FnOnce(&str, &InboxEnvelope) -> Result<(), InboxSendError>,
>(params: &Value, identity: &PeerIdentity, list_live: L, deliver: D) -> (r: ToolReply)
    requires
        lists_for_call(list_live, json::json_tree(*params), *identity),
        delivers_for_call(list_live, deliver, json::json_tree(*params), *identity),
    ensures
        calls_tool(
            list_live,
            deliver,
            json::json_tree(*params),
            *identity,
            json::json_tree(r.result),
            r.sent,
        ),
{
    proof {
        reveal_strlit("list_peers");
        reveal_strlit("send_message");
        assert(LIST_PEERS@[0] != SEND_MESSAGE@[0]);
    }
    let name = match get_text(params, "name") {
        Some(s) => s,
        None => "".to_owned(),
    };
    if text::same_text(name.as_str(), LIST_PEERS) {
        ToolReply { result: call_list_peers(params, identity, list_live), sent: None }
    } else if text::same_text(name.as_str(), SEND_MESSAGE) {
        call_send_message(params, identity, list_live, deliver)
    } else {
        ToolReply {
            result: tool_text("Unknown tool: ".to_owned().concat(name.as_str()), true),
            sent: None,
        }
    }
}

// -- Requests ---------------------------------------------------------------

/// The outcome of one JSON-RPC message.
pub struct McpReply {
    /// The message to answer with, if any.
    pub response: Option<Value>,
    /// The message that was delivered to a peer, if one was.
    pub sent: Option<SentMessage>,
}

/// A JSON-RPC response with a result.
pub open spec fn result_tree(id: Tree, result: Tree) -> Tree {
    Tree::Object(
        Map::empty().insert("jsonrpc"@, Tree::Text("2.0"@)).insert("id"@, id).insert(
            "result"@,
            result,
        ),
    )
}

/// The JSON-RPC response to a method that the server does not know.
pub open spec fn unknown_method_tree(id: Tree, method: Seq<char>) -> Tree {
    Tree::Object(
        Map::empty().insert("jsonrpc"@, Tree::Text("2.0"@)).insert("id"@, id).insert(
            "error"@,
            Tree::Object(
                Map::empty().insert("code"@, Tree::Integer(-32601)).insert(
                    "message"@,
                    Tree::Text("Method not found: "@ + method),
                ),
            ),
        ),
    )
}

/// The method of a message, or an empty text.
pub open spec fn method_of(msg: Tree) -> Seq<char> {
    match json::text_member(msg, "method"@) {
        Some(s) => s,
        None => ""@,
    }
}

/// The parameters of a message, or null.
pub open spec fn params_of(msg: Tree) -> Tree {
    match json::member(msg, "params"@) {
        Some(t) => t,
        None => Tree::Null,
    }
}

/// A message is a request that calls a tool.
pub open spec fn is_tool_call(msg: Tree) -> bool {
    json::member(msg, "id"@) is Some && method_of(msg) == "tools/call"@
}

/// The response to every request but a tool call.
pub open spec fn plain_response(msg: Tree, id: Tree) -> Tree {
    let method = method_of(msg);
    if method == "initialize"@ {
        result_tree(id, initialize_tree(params_of(msg)))
    } else if method == "ping"@ {
        result_tree(id, empty_object())
    } else if method == "tools/list"@ {
        result_tree(id, Tree::Object(Map::empty().insert("tools"@, Tree::Array(tools_tree()))))
    } else {
        unknown_method_tree(id, method)
    }
}

/// The tool call of a message may give this response.
pub open spec fn answers_call<
    L: FnOnce() -> Result<Vec<PeerRecord>, String>,
    D: FnOnce(&str, &InboxEnvelope) -> Result<(), InboxSendError>,
>(
    list_live: L,
    deliver: D,
    msg: Tree,
    id: Tree,
    identity: PeerIdentity,
    response: Tree,
    sent: Option<SentMessage>,
) -> bool {
    exists|result: Tree| #[trigger]
        calls_tool(list_live, deliver, params_of(msg), identity, result, sent) && response
            == result_tree(id, result)
}

/// Handling `msg` may end with `reply`: a notification is not answered, a tool
/// call is, and every other request has one fixed response.
pub open spec fn handles<
    L: FnOnce() -> Result<Vec<PeerRecord>, String>,
    D: FnOnce(&str, &InboxEnvelope) -> Result<(), InboxSendError>,
>(list_live: L, deliver: D, msg: Tree, identity: PeerIdentity, reply: McpReply) -> bool {
    match json::member(msg, "id"@) {
        None => reply.response is None && reply.sent is None,
        Some(id) => {
            &&& reply.response is Some
            &&& if method_of(msg) == "tools/call"@ {
                answers_call(
                    list_live,
                    deliver,
                    msg,
                    id,
                    identity,
                    json::json_tree(reply.response->0),
                    reply.sent,
                )
            } else {
                json::json_tree(reply.response->0) == plain_response(msg, id) && reply.sent is None
            }
        },
    }
}

fn result_response(id: Value, result: Value) -> (r: Value)
    ensures
        json::json_tree(r) == result_tree(json::json_tree(id), json::json_tree(result)),
{
    let mut response = Fields::new();
    response.put("jsonrpc", json_text("2.0".to_owned()));
    response.put("id", id);
    response.put("result", result);
    response.build()
}

fn unknown_method_response(id: Value, method: &str) -> (r: Value)
    ensures
        json::json_tree(r) == unknown_method_tree(json::json_tree(id), method@),
{
    let mut error = Fields::new();
    error.put("code", json_integer(-32601));
    error.put("message", json_text("Method not found: ".to_owned().concat(method)));
    let mut response = Fields::new();
    response.put("jsonrpc", json_text("2.0".to_owned()));
    response.put("id", id);
    response.put("error", error.build());
    response.build()
}

proof fn lemma_methods_differ()
    ensures
        "initialize"@ != "tools/call"@,
        "ping"@ != "tools/call"@,
        "tools/list"@ != "tools/call"@,
{
    reveal_strlit("initialize");
    reveal_strlit("ping");
    reveal_strlit("tools/list");
    reveal_strlit("tools/call");
    assert("initialize"@[0] == 'i');
    assert("ping"@[0] == 'p');
    assert("tools/list"@[6] == 'l');
    assert("tools/call"@[6] == 'c');
    assert("tools/call"@[0] == 't');
}

/// True when the reply to `msg` can be told with these live peers: unless it is a
/// tool call that sends a message which cannot be reported.
pub fn reply_is_possible(msg: &Value, identity: &PeerIdentity, live: &Vec<PeerRecord>) -> (r: bool)
    ensures
        r == (is_tool_call(json::json_tree(*msg)) ==> can_report_call(
            params_of(json::json_tree(*msg)),
            *identity,
            live@,
        )),
{
    let method = match get_text(msg, "method") {
        Some(s) => s,
        None => "".to_owned(),
    };
    if json_get(msg, "id").is_none() || !text::same_text(method.as_str(), "tools/call") {
        return true;
    }
    let params = match json_get(msg, "params") {
        Some(p) => json_clone(p),
        None => json_null(),
    };
    let name = match get_text(&params, "name") {
        Some(s) => s,
        None => "".to_owned(),
    };
    if !text::same_text(name.as_str(), SEND_MESSAGE) {
        return true;
    }
    let to = match tool_argument(&params, "to") {
        Some(s) => s,
        None => "".to_owned(),
    };
    let message = match tool_argument(&params, "message") {
        Some(s) => s,
        None => "".to_owned(),
    };
    send::refuse(to.as_str(), message.as_str()).is_some() || send::report_is_possible(
        live,
        identity.session_id.as_str(),
        text::trim(to.as_str()).as_str(),
    )
}

/// Handle one JSON-RPC message. Notifications (no `id`) are not answered.
pub fn handle_mcp_message<
    L: FnOnce() -> Result<Vec<PeerRecord>, String>,
    D: FnOnce(&str, &InboxEnvelope) -> Result<(), InboxSendError>,
>(msg: &Value, identity: &PeerIdentity, list_live: L, deliver: D) -> (r: McpReply)
    requires
        is_tool_call(json::json_tree(*msg)) ==> lists_for_call(
            list_live,
            params_of(json::json_tree(*msg)),
            *identity,
        ),
        is_tool_call(json::json_tree(*msg)) ==> delivers_for_call(
            list_live,
            deliver,
            params_of(json::json_tree(*msg)),
            *identity,
        ),
    ensures
        handles(list_live, deliver, json::json_tree(*msg), *identity, r),
{
    proof {
        lemma_methods_differ();
    }
    let method = match get_text(msg, "method") {
        Some(s) => s,
        None => "".to_owned(),
    };
    let id = match json_get(msg, "id") {
        Some(id) => json_clone(id),
        None => return McpReply { response: None, sent: None },
    };
    let params = match json_get(msg, "params") {
        Some(p) => json_clone(p),
        None => json_null(),
    };
    if text::same_text(method.as_str(), "initialize") {
        McpReply { response: Some(result_response(id, initialize_result(&params))), sent: None }
    } else if text::same_text(method.as_str(), "ping") {
        McpReply { response: Some(result_response(id, Fields::new().build())), sent: None }
    } else if text::same_text(method.as_str(), "tools/list") {
        let mut result = Fields::new();
        result.put("tools", json_array(tool_descriptors()));
        McpReply { response: Some(result_response(id, result.build())), sent: None }
    } else if text::same_text(method.as_str(), "tools/call") {
        let reply = call_tool(&params, identity, list_live, deliver);
        McpReply { response: Some(result_response(id, reply.result)), sent: reply.sent }
    } else {
        McpReply { response: Some(unknown_method_response(id, method.as_str())), sent: None }
    }
}

// -- Laws -------------------------------------------------------------------

/// Member names that occur together in a message are told apart.
proof fn lemma_response_keys()
    ensures
        "jsonrpc"@ != "id"@,
        "jsonrpc"@ != "result"@,
        "jsonrpc"@ != "error"@,
        "id"@ != "result"@,
        "id"@ != "error"@,
        "protocolVersion"@ != "capabilities"@,
        "protocolVersion"@ != "serverInfo"@,
        "content"@ != "isError"@,
{
    reveal_strlit("jsonrpc");
    reveal_strlit("id");
    reveal_strlit("result");
    reveal_strlit("error");
    reveal_strlit("protocolVersion");
    reveal_strlit("capabilities");
    reveal_strlit("serverInfo");
    reveal_strlit("content");
    reveal_strlit("isError");
    assert("jsonrpc"@[0] == 'j');
    assert("result"@[0] == 'r');
    assert("error"@[0] == 'e');
    assert("id"@[0] == 'i');
    assert("protocolVersion"@[0] == 'p');
    assert("capabilities"@[0] == 'c');
    assert("serverInfo"@[0] == 's');
    assert("content"@[0] == 'c');
    assert("isError"@[0] == 'i');
}

/// A notification, which has no id, is never answered and sends nothing.
pub proof fn notification_is_unanswered<
    L: FnOnce() -> Result<Vec<PeerRecord>, String>,
    D: FnOnce(&str, &InboxEnvelope) -> Result<(), InboxSendError>,
>(list_live: L, deliver: D, msg: Tree, identity: PeerIdentity, reply: McpReply)
    requires
        handles(list_live, deliver, msg, identity, reply),
        json::member(msg, "id"@) is None,
    ensures
        reply.response is None,
        reply.sent is None,
{
}

/// Every request is answered with a JSON-RPC 2.0 object that bears its id.
pub proof fn request_is_answered_under_its_id<
    L: FnOnce() -> Result<Vec<PeerRecord>, String>,
    D: FnOnce(&str, &InboxEnvelope) -> Result<(), InboxSendError>,
>(list_live: L, deliver: D, msg: Tree, identity: PeerIdentity, reply: McpReply)
    requires
        handles(list_live, deliver, msg, identity, reply),
        json::member(msg, "id"@) is Some,
    ensures
        reply.response is Some,
        json::json_tree(reply.response->0) is Object,
        json::member(json::json_tree(reply.response->0), "id"@) == json::member(msg, "id"@),
        json::text_member(json::json_tree(reply.response->0), "jsonrpc"@) == Some("2.0"@),
{
    lemma_response_keys();
}

/// `initialize` echoes the requested protocol version when it is supported and
/// falls back to the server's own when it is not.
pub proof fn initialize_echoes_supported_version(params: Tree)
    ensures
        ({
            let answered = json::text_member(initialize_tree(params), "protocolVersion"@);
            match json::text_member(params, "protocolVersion"@) {
                Some(v) => answered == Some(
                    if supported_version(v) {
                        v
                    } else {
                        PROTOCOL_VERSION@
                    },
                ),
                None => answered == Some(PROTOCOL_VERSION@),
            }
        }),
        supported_version(version_for(json::text_member(params, "protocolVersion"@))),
{
    lemma_response_keys();
}

/// A tool call is reported as an error exactly when nothing was delivered, and
/// only a delivery is stamped.
pub proof fn only_deliveries_are_stamped<
    L: FnOnce() -> Result<Vec<PeerRecord>, String>,
    D: FnOnce(&str, &InboxEnvelope) -> Result<(), InboxSendError>,
>(
    list_live: L,
    deliver: D,
    params: Tree,
    identity: PeerIdentity,
    result: Tree,
    sent: Option<SentMessage>,
)
    requires
        calls_tool(list_live, deliver, params, identity, result, sent),
        called_tool(params) == SEND_MESSAGE@,
    ensures
        json::member(result, "isError"@) == Some(Tree::Bool(sent is None)),
{
    lemma_response_keys();
    reveal_strlit("list_peers");
    reveal_strlit("send_message");
    assert(LIST_PEERS@[0] != SEND_MESSAGE@[0]);
}

/// A blank message is refused whoever it is for: the result is an error and
/// nothing is sent.
pub proof fn blank_message_is_an_error<
    L: FnOnce() -> Result<Vec<PeerRecord>, String>,
    D: FnOnce(&str, &InboxEnvelope) -> Result<(), InboxSendError>,
>(
    list_live: L,
    deliver: D,
    params: Tree,
    identity: PeerIdentity,
    result: Tree,
    sent: Option<SentMessage>,
)
    requires
        calls_tool(list_live, deliver, params, identity, result, sent),
        called_tool(params) == SEND_MESSAGE@,
        text::trimmed(argument(params, "message"@)).len() == 0,
    ensures
        sent is None,
        json::member(result, "isError"@) == Some(Tree::Bool(true)),
{
    lemma_response_keys();
    reveal_strlit("list_peers");
    reveal_strlit("send_message");
    reveal_strlit("unreachable");
    reveal_strlit("delivered");
    assert(LIST_PEERS@[0] != SEND_MESSAGE@[0]);
    assert("unreachable"@[0] != "delivered"@[0]);
}

/// `result` is a tool result that holds one text, `shown`, and is an error if
/// `is_error`.
pub open spec fn shows_text(result: Tree, shown: Seq<char>, is_error: bool) -> bool {
    &&& json::member(result, "content"@) matches Some(Tree::Array(blocks))
    &&& blocks.len() == 1
    &&& json::text_member(blocks[0], "type"@) == Some("text"@)
    &&& json::text_member(blocks[0], "text"@) == Some(shown)
    &&& json::member(result, "isError"@) == Some(Tree::Bool(is_error))
}

proof fn lemma_tool_text(shown: Seq<char>, is_error: bool)
    ensures
        shows_text(tool_text_tree(shown, is_error), shown, is_error),
{
    lemma_response_keys();
    reveal_strlit("type");
    reveal_strlit("text");
    assert("type"@[1] == 'y');
    assert("text"@[1] == 'e');
}

/// `initialize` answers the version that was asked for if it is one of the three
/// that are spoken, and the oldest of them otherwise. The answer names the server.
pub proof fn spoken_versions_are_answered<
    L: FnOnce() -> Result<Vec<PeerRecord>, String>,
    D: FnOnce(&str, &InboxEnvelope) -> Result<(), InboxSendError>,
>(
    list_live: L,
    deliver: D,
    msg: Tree,
    id: Tree,
    params: Tree,
    asked: Seq<char>,
    identity: PeerIdentity,
    reply: McpReply,
)
    requires
        handles(list_live, deliver, msg, identity, reply),
        json::member(msg, "id"@) == Some(id),
        json::text_member(msg, "method"@) == Some("initialize"@),
        json::member(msg, "params"@) == Some(params),
        json::text_member(params, "protocolVersion"@) == Some(asked),
    ensures
        reply.response is Some,
        json::member(json::json_tree(reply.response->0), "result"@) matches Some(result) && {
            &&& json::text_member(result, "protocolVersion"@) == Some(
                if asked == "2025-03-26"@ || asked == "2025-06-18"@ {
                    asked
                } else {
                    "2024-11-05"@
                },
            )
            &&& json::as_text(json::member_of(json::member(result, "serverInfo"@), "name"@)) == Some(
                "grok-peers"@,
            )
            &&& json::member_of(json::member(result, "capabilities"@), "tools"@) is Some
        },
{
    lemma_response_keys();
    lemma_methods_differ();
    reveal_strlit("name");
    reveal_strlit("version");
    reveal_strlit("capabilities");
    reveal_strlit("serverInfo");
    assert("name"@[0] != "version"@[0]);
    assert("capabilities"@[0] != "serverInfo"@[0]);
}

/// A `ping` is answered with an empty result.
pub proof fn ping_is_answered<
    L: FnOnce() -> Result<Vec<PeerRecord>, String>,
    D: FnOnce(&str, &InboxEnvelope) -> Result<(), InboxSendError>,
>(list_live: L, deliver: D, msg: Tree, identity: PeerIdentity, reply: McpReply)
    requires
        handles(list_live, deliver, msg, identity, reply),
        json::member(msg, "id"@) is Some,
        json::text_member(msg, "method"@) == Some("ping"@),
    ensures
        reply.response is Some,
        json::member(json::json_tree(reply.response->0), "result"@) matches Some(Tree::Object(m))
            && m.dom() == Set::<Seq<char>>::empty(),
        json::member(json::json_tree(reply.response->0), "error"@) is None,
        reply.sent is None,
{
    lemma_response_keys();
    lemma_methods_differ();
    reveal_strlit("ping");
    reveal_strlit("initialize");
    reveal_strlit("result");
    reveal_strlit("error");
    assert("ping"@[0] != "initialize"@[0]);
    assert("result"@[0] != "error"@[0]);
    assert(Map::<Seq<char>, Tree>::empty().dom() =~= Set::<Seq<char>>::empty());
}

/// A request with any other method is answered with error -32601, which names the
/// method, and with no result.
pub proof fn other_methods_are_not_found<
    L: FnOnce() -> Result<Vec<PeerRecord>, String>,
    D: FnOnce(&str, &InboxEnvelope) -> Result<(), InboxSendError>,
>(
    list_live: L,
    deliver: D,
    msg: Tree,
    method: Seq<char>,
    identity: PeerIdentity,
    reply: McpReply,
)
    requires
        handles(list_live, deliver, msg, identity, reply),
        json::member(msg, "id"@) is Some,
        json::text_member(msg, "method"@) == Some(method),
        method != "initialize"@,
        method != "ping"@,
        method != "tools/list"@,
        method != "tools/call"@,
    ensures
        reply.response is Some,
        reply.sent is None,
        json::member(json::json_tree(reply.response->0), "result"@) is None,
        json::member(json::json_tree(reply.response->0), "error"@) matches Some(error) && {
            &&& json::member(error, "code"@) == Some(Tree::Integer(-32601))
            &&& json::text_member(error, "message"@) matches Some(m) && method.is_suffix_of(m)
        },
{
    lemma_response_keys();
    reveal_strlit("result");
    reveal_strlit("error");
    reveal_strlit("code");
    reveal_strlit("message");
    assert("result"@[0] != "error"@[0]);
    assert("code"@[0] != "message"@[0]);
    let m = "Method not found: "@ + method;
    assert(m.subrange(m.len() - method.len(), m.len() as int) =~= method);
}

/// `tools/list` is answered with the two peer tools. `list_peers` takes a filter;
/// `send_message` takes an address and a message, and needs both.
pub proof fn both_tools_are_on_offer<
    L: FnOnce() -> Result<Vec<PeerRecord>, String>,
    D: FnOnce(&str, &InboxEnvelope) -> Result<(), InboxSendError>,
>(list_live: L, deliver: D, msg: Tree, identity: PeerIdentity, reply: McpReply)
    requires
        handles(list_live, deliver, msg, identity, reply),
        json::member(msg, "id"@) is Some,
        json::text_member(msg, "method"@) == Some("tools/list"@),
    ensures
        reply.response is Some,
        json::member_of(json::member(json::json_tree(reply.response->0), "result"@), "tools"@)
            matches Some(Tree::Array(tools)) && {
            &&& tools.len() == 2
            &&& json::text_member(tools[0], "name"@) == Some("list_peers"@)
            &&& json::text_member(tools[1], "name"@) == Some("send_message"@)
            &&& json::member_of(
                json::member_of(json::member(tools[0], "inputSchema"@), "properties"@),
                "filter"@,
            ) is Some
            &&& json::member_of(
                json::member_of(json::member(tools[1], "inputSchema"@), "properties"@),
                "to"@,
            ) is Some
            &&& json::member_of(
                json::member_of(json::member(tools[1], "inputSchema"@), "properties"@),
                "message"@,
            ) is Some
            &&& json::member_of(json::member(tools[1], "inputSchema"@), "required"@) matches Some(
                Tree::Array(required),
            ) && required.contains(Tree::Text("to"@)) && required.contains(Tree::Text("message"@))
            &&& json::member_of(json::member(tools[0], "inputSchema"@), "required"@) is None
        },
{
    lemma_response_keys();
    lemma_methods_differ();
    reveal_strlit("initialize");
    reveal_strlit("ping");
    reveal_strlit("tools/list");
    reveal_strlit("name");
    reveal_strlit("description");
    reveal_strlit("inputSchema");
    reveal_strlit("properties");
    reveal_strlit("required");
    reveal_strlit("type");
    reveal_strlit("to");
    reveal_strlit("message");
    assert("tools/list"@[0] == 't' && "initialize"@[0] == 'i' && "ping"@[0] == 'p');
    assert("name"@[0] == 'n' && "description"@[0] == 'd' && "inputSchema"@[0] == 'i');
    assert("properties"@[0] == 'p' && "required"@[0] == 'r' && "type"@[0] == 't');
    assert("to"@[0] != "message"@[0]);
    let required = seq![Tree::Text("to"@), Tree::Text("message"@)];
    assert(required[0] == Tree::Text("to"@) && required[1] == Tree::Text("message"@));
}

/// A listing tells of every listed peer, in order, with its name, session id,
/// directory and note, and of the session that asks.
pub proof fn listing_tells_of_every_peer(
    peers: Seq<PeerRecord>,
    self_name: Seq<char>,
    self_session_id: Seq<char>,
    i: int,
)
    requires
        0 <= i < peers.len(),
    ensures
        json::text_member(listing_tree(peers, self_name, self_session_id), "self_name"@) == Some(
            self_name,
        ),
        json::text_member(listing_tree(peers, self_name, self_session_id), "self_session_id"@)
            == Some(self_session_id),
        json::member(listing_tree(peers, self_name, self_session_id), "peers"@) matches Some(
            Tree::Array(rows),
        ) && {
            &&& rows.len() == peers.len()
            &&& json::text_member(rows[i], "name"@) == Some(peers[i].name@)
            &&& json::text_member(rows[i], "session_id"@) == Some(peers[i].session_id@)
            &&& json::text_member(rows[i], "cwd"@) == Some(peers[i].cwd@)
            &&& peers[i].note matches Some(note) ==> json::text_member(rows[i], "note"@) == Some(
                note@,
            )
            &&& peers[i].note is None ==> json::member(rows[i], "note"@) == Some(Tree::Null)
        },
{
    reveal_strlit("peers");
    reveal_strlit("self_name");
    reveal_strlit("self_session_id");
    reveal_strlit("name");
    reveal_strlit("session_id");
    reveal_strlit("cwd");
    reveal_strlit("note");
    assert("peers"@[0] == 'p' && "self_name"@[5] == 'n' && "self_session_id"@[5] == 's');
    assert("self_name"@[0] == 's' && "self_session_id"@[0] == 's');
    assert("name"@[1] == 'a' && "note"@[1] == 'o' && "cwd"@[1] == 'w' && "session_id"@[1] == 'e');
}

/// A report tells of the status, of the peer that was meant and of the details.
pub proof fn report_is_told_whole(report: SendReport)
    ensures
        json::text_member(report_tree(report), "status"@) == Some(report.status),
        json::text_member(report_tree(report), "to_name"@) == Some(report.to_name),
        json::text_member(report_tree(report), "to_session_id"@) == Some(report.to_session_id),
        json::text_member(report_tree(report), "detail"@) == Some(report.detail),
{
    reveal_strlit("status");
    reveal_strlit("to_name");
    reveal_strlit("to_session_id");
    reveal_strlit("detail");
    assert("status"@[0] == 's' && "detail"@[0] == 'd');
    assert("to_name"@[3] == 'n' && "to_session_id"@[3] == 's');
    assert("to_name"@[0] == 't' && "to_session_id"@[0] == 't');
}

/// Calling `list_peers` shows the peers that the filter in the arguments lets
/// through, or why they could not be listed; it sends nothing.
pub proof fn list_peers_shows_the_listing<
    L: FnOnce() -> Result<Vec<PeerRecord>, String>,
    D: FnOnce(&str, &InboxEnvelope) -> Result<(), InboxSendError>,
>(
    list_live: L,
    deliver: D,
    params: Tree,
    args: Tree,
    filter: Seq<char>,
    identity: PeerIdentity,
    result: Tree,
    sent: Option<SentMessage>,
)
    requires
        calls_tool(list_live, deliver, params, identity, result, sent),
        json::text_member(params, "name"@) == Some("list_peers"@),
        json::member(params, "arguments"@) == Some(args),
    ensures
        sent is None,
        exists|listing: Result<Vec<PeerRecord>, String>|
            {
                &&& #[trigger] list_live.ensures((), listing)
                &&& listing matches Ok(live) ==> json::member(args, "filter"@) == Some(
                    Tree::Text(filter),
                ) ==> shows_text(
                    result,
                    json::rendered_json(
                        listing_tree(
                            send::shown_peers(live@, identity.session_id@, Some(filter)),
                            identity.name@,
                            identity.session_id@,
                        ),
                    ),
                    false,
                )
                &&& listing matches Ok(live) ==> json::member(args, "filter"@) is None
                    ==> shows_text(
                    result,
                    json::rendered_json(
                        listing_tree(
                            send::shown_peers(live@, identity.session_id@, None),
                            identity.name@,
                            identity.session_id@,
                        ),
                    ),
                    false,
                )
                &&& listing matches Err(e) ==> shows_text(
                    result,
                    "Failed to list live peers: "@ + e@,
                    true,
                )
            },
{
    let wanted = json::as_text(json::member_of(json::member(params, "arguments"@), "filter"@));
    let listing = choose|listing: Result<Vec<PeerRecord>, String>| #[trigger]
        list_live.ensures((), listing) && result == match listing {
            Ok(live) => tool_text_tree(
                json::rendered_json(
                    listing_tree(
                        send::shown_peers(live@, identity.session_id@, wanted),
                        identity.name@,
                        identity.session_id@,
                    ),
                ),
                false,
            ),
            Err(e) => tool_text_tree("Failed to list live peers: "@ + e@, true),
        };
    match listing {
        Ok(live) => {
            lemma_tool_text(
                json::rendered_json(
                    listing_tree(
                        send::shown_peers(live@, identity.session_id@, wanted),
                        identity.name@,
                        identity.session_id@,
                    ),
                ),
                false,
            );
        },
        Err(e) => {
            lemma_tool_text("Failed to list live peers: "@ + e@, true);
        },
    }
    assert(list_live.ensures((), listing));
}

/// Calling `send_message` sends the message in the arguments to the address in
/// them, shows the report, and notes the address and the peer of a delivery.
pub proof fn send_message_sends_the_arguments<
    L: FnOnce() -> Result<Vec<PeerRecord>, String>,
    D: FnOnce(&str, &InboxEnvelope) -> Result<(), InboxSendError>,
>(
    list_live: L,
    deliver: D,
    params: Tree,
    args: Tree,
    to: Seq<char>,
    message: Seq<char>,
    identity: PeerIdentity,
    result: Tree,
    sent: Option<SentMessage>,
)
    requires
        calls_tool(list_live, deliver, params, identity, result, sent),
        json::text_member(params, "name"@) == Some("send_message"@),
        json::member(params, "arguments"@) == Some(args),
        json::member(args, "to"@) == Some(Tree::Text(to)),
        json::member(args, "message"@) == Some(Tree::Text(message)),
    ensures
        exists|report: SendReport|
            {
                &&& #[trigger] send::sends(
                    list_live,
                    deliver,
                    identity.name@,
                    identity.session_id@,
                    to,
                    message,
                    report,
                )
                &&& shows_text(
                    result,
                    json::rendered_json(report_tree(report)),
                    report.status != "delivered"@,
                )
                &&& sent is Some <==> report.status == "delivered"@
                &&& sent matches Some(s) ==> s.to@ == to && s.to_name@ == report.to_name
                    && s.to_session_id@ == report.to_session_id
            },
{
    reveal_strlit("list_peers");
    reveal_strlit("send_message");
    assert("list_peers"@[0] != "send_message"@[0]);
    assert(argument(params, "to"@) == to);
    assert(argument(params, "message"@) == message);
    let report = choose|report: SendReport|
        {
            &&& #[trigger] send::sends(
                list_live,
                deliver,
                identity.name@,
                identity.session_id@,
                argument(params, "to"@),
                argument(params, "message"@),
                report,
            )
            &&& result == sent_tree(report)
            &&& tells_of_delivery(sent, argument(params, "to"@), report)
        };
    lemma_tool_text(json::rendered_json(report_tree(report)), report.status != "delivered"@);
    assert(send::sends(
        list_live,
        deliver,
        identity.name@,
        identity.session_id@,
        to,
        message,
        report,
    ));
}

/// Calling any other tool is an error that names the tool; nothing is sent.
pub proof fn other_tools_are_unknown<
    L: FnOnce() -> Result<Vec<PeerRecord>, String>,
    D: FnOnce(&str, &InboxEnvelope) -> Result<(), InboxSendError>,
>(
    list_live: L,
    deliver: D,
    params: Tree,
    name: Seq<char>,
    identity: PeerIdentity,
    result: Tree,
    sent: Option<SentMessage>,
)
    requires
        calls_tool(list_live, deliver, params, identity, result, sent),
        json::text_member(params, "name"@) == Some(name),
        name != "list_peers"@,
        name != "send_message"@,
    ensures
        shows_text(result, "Unknown tool: "@ + name, true),
        sent is None,
{
    lemma_tool_text("Unknown tool: "@ + name, true);
}

/// A tool call is answered with what the tool gives, called with the parameters of
/// the message, and what it sent is passed on.
pub proof fn tool_calls_are_answered<
    L: FnOnce() -> Result<Vec<PeerRecord>, String>,
    D: FnOnce(&str, &InboxEnvelope) -> Result<(), InboxSendError>,
>(
    list_live: L,
    deliver: D,
    msg: Tree,
    params: Tree,
    identity: PeerIdentity,
    reply: McpReply,
)
    requires
        handles(list_live, deliver, msg, identity, reply),
        json::member(msg, "id"@) is Some,
        json::text_member(msg, "method"@) == Some("tools/call"@),
        json::member(msg, "params"@) == Some(params),
    ensures
        reply.response is Some,
        json::member(json::json_tree(reply.response->0), "result"@) matches Some(result)
            && calls_tool(list_live, deliver, params, identity, result, reply.sent),
{
    lemma_response_keys();
    let result = choose|result: Tree| #[trigger]
        calls_tool(list_live, deliver, params_of(msg), identity, result, reply.sent)
            && json::json_tree(reply.response->0) == result_tree(json::member(msg, "id"@)->0, result);
    assert(params_of(msg) == params);
}

}
