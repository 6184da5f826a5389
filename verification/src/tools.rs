//! The tools that Grok is given: `list_peers`, `send_message`, and those of the
//! Cursor SDK Bridge.

use vstd::prelude::*;
use vstd::utf8::*;

use crate::client::{AgentSummary, CreateAgentResult, SendResult};
use crate::error::CursorSdkError;
use crate::inbox;
use crate::inbox::{plain_envelope, InboxEnvelope, InboxSendError};
use crate::naming;
use crate::naming::short_id;
use crate::registry;
use crate::registry::PeerRecord;
use crate::send;
use crate::send::{filter_peers, find_target, report_of, PeerSendOutput, SendReport};
use crate::text;

verus! {

pub const LIST_PEERS_TOOL_NAME: &'static str = "list_peers";

pub const SEND_MESSAGE_TOOL_NAME: &'static str = "send_message";

pub const CURSOR_LIST_MODELS_TOOL_NAME: &'static str = "cursor_list_models";

pub const CURSOR_CREATE_AGENT_TOOL_NAME: &'static str = "cursor_create_agent";

pub const CURSOR_SEND_TOOL_NAME: &'static str = "cursor_send";

pub const CURSOR_LIST_AGENTS_TOOL_NAME: &'static str = "cursor_list_agents";

/// What a tool does, roughly.
#[derive(Debug, Clone, Copy, PartialEq, Eq, Structural)]
pub enum ToolKind {
    List,
    AskUser,
    Execute,
}

/// Whose tool it is.
#[derive(Debug, Clone, Copy, PartialEq, Eq, Structural)]
pub enum ToolNamespace {
    GrokBuild,
    Cursor,
}

/// What a tool may touch.
#[derive(Debug, Clone, Copy, PartialEq, Eq, Structural)]
pub enum ToolScope {
    Read,
    Write,
}

/// What a tool is able to do.
#[derive(Debug, Clone, Copy, PartialEq, Eq, Structural)]
pub struct ToolCapabilities {
    pub is_read_only: bool,
    pub tool_scope: ToolScope,
}

/// Why a tool call failed.
#[derive(Debug)]
pub struct ToolError {
    pub code: String,
    pub message: String,
}

/// `e` has that code and message.
pub open spec fn is_tool_error(e: ToolError, code: Seq<char>, message: Seq<char>) -> bool {
    e.code@ == code && e.message@ == message
}

impl ToolError {
    /// An error with a code of the tool's own.
    pub fn custom(code: &str, message: String) -> (r: Self)
        ensures
            is_tool_error(r, code@, message@),
    {
        ToolError { code: code.to_owned(), message }
    }
}

// -- list_peers -------------------------------------------------------------

#[derive(Debug)]
pub struct ListPeersInput {
    /// Optional substring filter matched against peer name or cwd
    /// (case-insensitive).
    pub filter: Option<String>,
}

#[derive(Debug)]
pub struct PeerInfo {
    pub name: String,
    pub session_id: String,
    pub cwd: String,
    pub short_id: String,
    pub note: Option<String>,
}

#[derive(Debug)]
pub struct ListPeersOutput {
    pub peers: Vec<PeerInfo>,
    pub self_name: Option<String>,
    pub self_session_id: String,
}

/// What the `list_peers` tool is for.
pub const LIST_PEERS_DESCRIPTION: &'static str =
    "List other live Grok sessions on this machine that you can message with send_message. Each peer has a name (set via --name or /rename), working directory, and session id. A note such as cursor:<model> means that peer is a Cursor client and will forward your message to Cursor, then reply on its own. Use this before send_message when you need to discover which session to address. Do not poll list_peers to wait for a reply.";

#[derive(Debug)]
pub struct ListPeersTool;

/// `info` tells of `p`.
pub open spec fn tells_of(info: PeerInfo, p: PeerRecord) -> bool {
    &&& info.name@ == p.name@
    &&& info.session_id@ == p.session_id@
    &&& info.cwd@ == p.cwd@
    &&& info.short_id@ == naming::at_end(naming::compact_id(p.session_id@), 8)
    &&& text::opt_view(info.note) == text::opt_view(p.note)
}

/// `infos` tell of `peers`, one by one.
pub open spec fn tell_of(infos: Seq<PeerInfo>, peers: Seq<PeerRecord>) -> bool {
    &&& infos.len() == peers.len()
    &&& forall|i: int| 0 <= i < infos.len() ==> tells_of(#[trigger] infos[i], peers[i])
}

/// The name of the first live record of a session.
pub open spec fn name_of(live: Seq<PeerRecord>, session_id: Seq<char>) -> Option<Seq<char>>
    decreases live.len(),
{
    if live.len() == 0 {
        None
    } else if live[0].session_id@ == session_id {
        Some(live[0].name@)
    } else {
        name_of(live.drop_first(), session_id)
    }
}

fn find_name(live: &Vec<PeerRecord>, session_id: &str) -> (r: Option<String>)
    ensures
        text::opt_view(r) == name_of(live@, session_id@),
{
    let mut i: usize = 0;
    assert(live@.skip(0) =~= live@);
    while i < live.len()
        invariant
            i <= live@.len(),
            name_of(live@, session_id@) == name_of(live@.skip(i as int), session_id@),
        decreases live@.len() - i,
    {
        if text::same_text(live[i].session_id.as_str(), session_id) {
            return Some(live[i].name.clone());
        }
        assert(live@.skip(i as int).drop_first() =~= live@.skip(i + 1));
        i += 1;
    }
    None
}

fn peer_info(p: &PeerRecord) -> (r: PeerInfo)
    ensures
        tells_of(r, *p),
{
    PeerInfo {
        short_id: short_id(p.session_id.as_str(), 8),
        name: p.name.clone(),
        session_id: p.session_id.clone(),
        cwd: p.cwd.clone(),
        note: p.note.clone(),
    }
}

/// The outcome of `list_peers` once the live peers are listed.
pub open spec fn listed(
    listing: Result<Vec<PeerRecord>, String>,
    self_id: Seq<char>,
    filter: Option<Seq<char>>,
    r: Result<ListPeersOutput, ToolError>,
) -> bool {
    match listing {
        Err(e) => r is Err && is_tool_error(
            r->Err_0,
            "peer_list_failed"@,
            "Failed to list live peers: "@ + e@,
        ),
        Ok(live) => r matches Ok(out) && tell_of(
            out.peers@,
            send::shown_peers(live@, self_id, filter),
        ) && text::opt_view(out.self_name) == name_of(live@, self_id) && out.self_session_id@
            == self_id,
    }
}

impl ListPeersTool {
    /// The name of the tool.
    pub fn id(&self) -> (r: &'static str)
        ensures
            r@ == LIST_PEERS_TOOL_NAME@,
    {
        LIST_PEERS_TOOL_NAME
    }

    pub fn kind(&self) -> (r: ToolKind)
        ensures
            r == ToolKind::List,
    {
        ToolKind::List
    }

    pub fn tool_namespace(&self) -> (r: ToolNamespace)
        ensures
            r == ToolNamespace::GrokBuild,
    {
        ToolNamespace::GrokBuild
    }

    pub fn description_template(&self) -> (r: &'static str)
        ensures
            r@ == LIST_PEERS_DESCRIPTION@,
    {
        LIST_PEERS_DESCRIPTION
    }

    pub fn capabilities(&self) -> (r: ToolCapabilities)
        ensures
            r == (ToolCapabilities { is_read_only: true, tool_scope: ToolScope::Read }),
    {
        ToolCapabilities { is_read_only: true, tool_scope: ToolScope::Read }
    }

    /// List the live peers of the session `self_id`.
    pub fn run<L: FnOnce() -> Result<Vec<PeerRecord>, String>>(
        &self,
        self_id: &str,
        input: &ListPeersInput,
        list_live: L,
    ) -> (r: Result<ListPeersOutput, ToolError>)
        requires
            list_live.requires(()),
        ensures
            exists|listing: Result<Vec<PeerRecord>, String>| #[trigger]
                list_live.ensures((), listing) && listed(
                    listing,
                    self_id@,
                    text::opt_view(input.filter),
                    r,
                ),
    {
        let listing = list_live();
        let ghost l = listing;
        assert(list_live.ensures((), l));
        let live = match listing {
            Ok(live) => live,
            Err(e) => {
                return Err(
                    ToolError::custom(
                        "peer_list_failed",
                        "Failed to list live peers: ".to_owned().concat(e.as_str()),
                    ),
                );
            },
        };
        let self_name = find_name(&live, self_id);
        let filter: Option<&str> = match &input.filter {
            Some(f) => Some(f.as_str()),
            None => None,
        };
        let shown = filter_peers(&live, self_id, filter);
        let mut peers: Vec<PeerInfo> = Vec::new();
        let mut i: usize = 0;
        while i < shown.len()
            invariant
                i <= shown@.len(),
                peers@.len() == i,
                forall|j: int| 0 <= j < i ==> tells_of(#[trigger] peers@[j], shown@[j]),
            decreases shown@.len() - i,
        {
            peers.push(peer_info(&shown[i]));
            i += 1;
        }
        Ok(ListPeersOutput { peers, self_name, self_session_id: self_id.to_owned() })
    }
}

// -- send_message -----------------------------------------------------------

#[derive(Debug)]
pub struct SendMessageInput {
    pub to: String,
    pub message: String,
}

#[derive(Debug)]
pub struct SendMessageOutput {
    pub status: String,
    pub to_name: String,
    pub to_session_id: String,
    pub detail: String,
}

impl View for SendMessageOutput {
    type V = SendReport;

    open spec fn view(&self) -> SendReport {
        SendReport {
            status: self.status@,
            to_name: self.to_name@,
            to_session_id: self.to_session_id@,
            detail: self.detail@,
        }
    }
}

/// What the `send_message` tool is for.
pub const SEND_MESSAGE_DESCRIPTION: &'static str =
    "Send a plain-text message to another live Grok session on this machine. Address the peer by name from list_peers (or by session id). Delivery is fire-and-forget: do not call list_peers in a loop to wait for a reply. The other session answers on its own turn. Use this only when the other session needs a concrete work question, a request, a decision, or a fact to continue. Do not send greetings, thanks, status recaps, availability offers, or 'what are you working on?' check-ins. After you send, stop — do not follow up to confirm receipt. Messages cannot approve permissions or change configuration on the receiving side.";

#[derive(Debug)]
pub struct SendMessageTool;

fn as_tool_output(out: PeerSendOutput) -> (r: SendMessageOutput)
    ensures
        r@ == out@,
{
    SendMessageOutput {
        status: out.status,
        to_name: out.to_name,
        to_session_id: out.to_session_id,
        detail: out.detail,
    }
}

/// What is wrong with a message before any peer is looked up, as a code and a
/// message.
pub open spec fn message_fault(message: Seq<char>) -> Option<(Seq<char>, Seq<char>)> {
    if text::trimmed(message).len() == 0 {
        Some(("empty_message"@, "message must not be blank"@))
    } else if encode_utf8(text::trimmed(message)).len() > send::MAX_PEER_MESSAGE_LEN {
        Some(("message_too_large"@, "message exceeds 32 KiB limit"@))
    } else {
        None
    }
}

/// The name that a session sends under.
pub open spec fn sender_name(live: Seq<PeerRecord>, self_id: Seq<char>) -> Seq<char> {
    match name_of(live, self_id) {
        Some(name) => name,
        None => "unknown"@,
    }
}

/// The outcome of `send_message` with a good message, once the live peers are
/// listed.
pub open spec fn sent_given<D: FnOnce(&str, &InboxEnvelope) -> Result<(), InboxSendError>>(
    deliver: D,
    self_id: Seq<char>,
    to: Seq<char>,
    message: Seq<char>,
    listing: Result<Vec<PeerRecord>, String>,
    r: Result<SendMessageOutput, ToolError>,
) -> bool {
    let key = text::trimmed(to);
    match listing {
        Err(e) => r is Err && is_tool_error(
            r->Err_0,
            "peer_list_failed"@,
            "Failed to list live peers: "@ + e@,
        ),
        Ok(live) => if key.len() == 0 {
            r is Err && is_tool_error(
                r->Err_0,
                "missing_target"@,
                "to must be a peer name or session id"@,
            )
        } else {
            match send::route(live@, self_id, key) {
                Err(refused) => r is Ok && r->Ok_0@ == refused,
                Ok(target) => r is Ok && send::delivers(
                    deliver,
                    sender_name(live@, self_id),
                    self_id,
                    text::trimmed(message),
                    target,
                    r->Ok_0@,
                ),
            }
        },
    }
}

/// `deliver` may be called for the one peer that a message of `self_id` is routed
/// to among the listed ones, under the name that `self_id` has there.
pub open spec fn delivers_to_target<
    L: FnOnce() -> Result<Vec<PeerRecord>, String>,
    D: FnOnce(&str, &InboxEnvelope) -> Result<(), InboxSendError>,
>(
    list_live: L,
    deliver: D,
    self_id: Seq<char>,
    to: Seq<char>,
    message: Seq<char>,
) -> bool {
    forall|live: Vec<PeerRecord>|
        {
            &&& #[trigger] list_live.ensures((), Ok::<Vec<PeerRecord>, String>(live))
            &&& send::route(live@, self_id, text::trimmed(to)) is Ok
        } ==> send::takes_message(
            deliver,
            sender_name(live@, self_id),
            self_id,
            text::trimmed(message),
            send::route(live@, self_id, text::trimmed(to))->Ok_0,
        )
}

impl SendMessageTool {
    /// The name of the tool.
    pub fn id(&self) -> (r: &'static str)
        ensures
            r@ == SEND_MESSAGE_TOOL_NAME@,
    {
        SEND_MESSAGE_TOOL_NAME
    }

    pub fn kind(&self) -> (r: ToolKind)
        ensures
            r == ToolKind::AskUser,
    {
        ToolKind::AskUser
    }

    pub fn tool_namespace(&self) -> (r: ToolNamespace)
        ensures
            r == ToolNamespace::GrokBuild,
    {
        ToolNamespace::GrokBuild
    }

    pub fn description_template(&self) -> (r: &'static str)
        ensures
            r@ == SEND_MESSAGE_DESCRIPTION@,
    {
        SEND_MESSAGE_DESCRIPTION
    }

    pub fn capabilities(&self) -> (r: ToolCapabilities)
        ensures
            r == (ToolCapabilities { is_read_only: false, tool_scope: ToolScope::Read }),
    {
        ToolCapabilities { is_read_only: false, tool_scope: ToolScope::Read }
    }

    /// Send a message from the session `self_id`. The message is looked at first,
    /// then the live peers are listed, then the target is looked at. Only the one
    /// peer that the message is routed to is sent anything.
    pub fn run<
        L: FnOnce() -> Result<Vec<PeerRecord>, String>,
        D: FnOnce(&str, &InboxEnvelope) -> Result<(), InboxSendError>,
    >(&self, self_id: &str, input: &SendMessageInput, list_live: L, deliver: D) -> (r: Result<
        SendMessageOutput,
        ToolError,
    >)
        requires
            message_fault(input.message@) is None ==> list_live.requires(()),
            message_fault(input.message@) is None && text::trimmed(input.to@).len() > 0
                ==> send::lists_targets(list_live, self_id@, text::trimmed(input.to@)),
            message_fault(input.message@) is None && text::trimmed(input.to@).len() > 0
                ==> delivers_to_target(list_live, deliver, self_id@, input.to@, input.message@),
        ensures
            match message_fault(input.message@) {
                Some((code, why)) => r is Err && is_tool_error(r->Err_0, code, why),
                None => exists|listing: Result<Vec<PeerRecord>, String>| #[trigger]
                    list_live.ensures((), listing) && sent_given(
                        deliver,
                        self_id@,
                        input.to@,
                        input.message@,
                        listing,
                        r,
                    ),
            },
    {
        let message = text::trim(input.message.as_str());
        if message.as_str().is_empty() {
            return Err(
                ToolError::custom("empty_message", "message must not be blank".to_owned()),
            );
        }
        if message.as_str().as_bytes().len() > send::MAX_PEER_MESSAGE_LEN {
            return Err(
                ToolError::custom("message_too_large", "message exceeds 32 KiB limit".to_owned()),
            );
        }
        let listing = list_live();
        let ghost l = listing;
        assert(list_live.ensures((), l));
        let live = match listing {
            Ok(live) => live,
            Err(e) => {
                return Err(
                    ToolError::custom(
                        "peer_list_failed",
                        "Failed to list live peers: ".to_owned().concat(e.as_str()),
                    ),
                );
            },
        };
        let from_name = match find_name(&live, self_id) {
            Some(name) => name,
            None => "unknown".to_owned(),
        };
        let target_key = text::trim(input.to.as_str());
        if target_key.as_str().is_empty() {
            return Err(
                ToolError::custom(
                    "missing_target",
                    "to must be a peer name or session id".to_owned(),
                ),
            );
        }
        let target = match find_target(&live, self_id, target_key.as_str()) {
            Ok(target) => target,
            Err(refused) => return Ok(as_tool_output(refused)),
        };
        let env = plain_envelope(
            from_name.as_str(),
            self_id,
            message.as_str(),
            Some(from_name.as_str()),
        );
        assert(list_live.ensures((), Ok::<Vec<PeerRecord>, String>(live)));
        let outcome = deliver(target.inbox_path.as_str(), &env);
        Ok(as_tool_output(report_of(&target, outcome)))
    }
}

// -- Cursor tools -----------------------------------------------------------

/// Why a call to the Cursor SDK failed.
#[derive(Debug)]
pub enum CursorCallError {
    /// There is no client to make it with.
    NoClient(CursorSdkError),
    /// The call itself failed.
    Failed(CursorSdkError),
}

/// The tool error for a failed call: its code is `cursor_sdk` without a client
/// and the name of the tool otherwise.
pub open spec fn is_call_error(e: ToolError, tool: Seq<char>, failed: CursorCallError) -> bool {
    match failed {
        CursorCallError::NoClient(why) => is_tool_error(e, "cursor_sdk"@, why.shown()),
        CursorCallError::Failed(why) => is_tool_error(e, tool, why.shown()),
    }
}

fn call_error(tool: &str, failed: CursorCallError) -> (r: ToolError)
    ensures
        is_call_error(r, tool@, failed),
{
    match failed {
        CursorCallError::NoClient(why) => ToolError::custom("cursor_sdk", why.display()),
        CursorCallError::Failed(why) => ToolError::custom(tool, why.display()),
    }
}

#[derive(Debug)]
pub struct CursorListModelsInput {}

#[derive(Debug)]
pub struct CursorModelInfo {
    pub id: String,
    pub display_name: String,
    pub description: String,
}

#[derive(Debug)]
pub struct CursorListModelsOutput {
    pub models: Vec<CursorModelInfo>,
}

/// What the `cursor_list_models` tool is for.
pub const CURSOR_LIST_MODELS_DESCRIPTION: &'static str =
    "List Cursor models available to the stored CURSOR_API_KEY via the SDK Bridge. Use a returned id as the model argument to cursor_create_agent. Requires `grok login-cursor` or CURSOR_API_KEY. This is not Grok /model.";

#[derive(Debug)]
pub struct CursorListModelsTool;

impl CursorListModelsTool {
    /// The name of the tool.
    pub fn id(&self) -> (r: &'static str)
        ensures
            r@ == CURSOR_LIST_MODELS_TOOL_NAME@,
    {
        CURSOR_LIST_MODELS_TOOL_NAME
    }

    pub fn kind(&self) -> (r: ToolKind)
        ensures
            r == ToolKind::List,
    {
        ToolKind::List
    }

    pub fn tool_namespace(&self) -> (r: ToolNamespace)
        ensures
            r == ToolNamespace::Cursor,
    {
        ToolNamespace::Cursor
    }

    pub fn description_template(&self) -> (r: &'static str)
        ensures
            r@ == CURSOR_LIST_MODELS_DESCRIPTION@,
    {
        CURSOR_LIST_MODELS_DESCRIPTION
    }

    pub fn capabilities(&self) -> (r: ToolCapabilities)
        ensures
            r == (ToolCapabilities { is_read_only: true, tool_scope: ToolScope::Read }),
    {
        ToolCapabilities { is_read_only: true, tool_scope: ToolScope::Read }
    }

    /// List the models that the SDK offers.
    pub fn run<L: FnOnce() -> Result<Vec<CursorModelInfo>, CursorCallError>>(
        &self,
        _input: &CursorListModelsInput,
        list_models: L,
    ) -> (r: Result<CursorListModelsOutput, ToolError>)
        requires
            list_models.requires(()),
        ensures
            exists|models: Result<Vec<CursorModelInfo>, CursorCallError>| #[trigger]
                list_models.ensures((), models) && match models {
                    Ok(list) => r == Ok::<CursorListModelsOutput, ToolError>(
                        CursorListModelsOutput { models: list },
                    ),
                    Err(e) => r is Err && is_call_error(
                        r->Err_0,
                        CURSOR_LIST_MODELS_TOOL_NAME@,
                        e,
                    ),
                },
    {
        match list_models() {
            Ok(models) => Ok(CursorListModelsOutput { models }),
            Err(e) => Err(call_error(CURSOR_LIST_MODELS_TOOL_NAME, e)),
        }
    }
}

#[derive(Debug)]
pub struct CursorCreateAgentInput {
    pub model: String,
    pub name: Option<String>,
}

#[derive(Debug)]
pub struct CursorCreateAgentOutput {
    pub agent_id: String,
    pub model: String,
}

/// What the `cursor_create_agent` tool is for.
pub const CURSOR_CREATE_AGENT_DESCRIPTION: &'static str =
    "Create a local Cursor agent in the current workspace via the SDK Bridge. Pass a model id from cursor_list_models. Returns agent_id for cursor_send.";

#[derive(Debug)]
pub struct CursorCreateAgentTool;

impl CursorCreateAgentTool {
    /// The name of the tool.
    pub fn id(&self) -> (r: &'static str)
        ensures
            r@ == CURSOR_CREATE_AGENT_TOOL_NAME@,
    {
        CURSOR_CREATE_AGENT_TOOL_NAME
    }

    pub fn kind(&self) -> (r: ToolKind)
        ensures
            r == ToolKind::Execute,
    {
        ToolKind::Execute
    }

    pub fn tool_namespace(&self) -> (r: ToolNamespace)
        ensures
            r == ToolNamespace::Cursor,
    {
        ToolNamespace::Cursor
    }

    pub fn description_template(&self) -> (r: &'static str)
        ensures
            r@ == CURSOR_CREATE_AGENT_DESCRIPTION@,
    {
        CURSOR_CREATE_AGENT_DESCRIPTION
    }

    pub fn capabilities(&self) -> (r: ToolCapabilities)
        ensures
            r == (ToolCapabilities { is_read_only: false, tool_scope: ToolScope::Write }),
    {
        ToolCapabilities { is_read_only: false, tool_scope: ToolScope::Write }
    }

    /// Create an agent; a blank model is refused before anything is asked of the
    /// SDK.
    pub fn run<C: FnOnce(&str, Option<String>) -> Result<CreateAgentResult, CursorCallError>>(
        &self,
        input: CursorCreateAgentInput,
        create_local_agent: C,
    ) -> (r: Result<CursorCreateAgentOutput, ToolError>)
        requires
            text::trimmed(input.model@).len() > 0 ==> forall|model: &str|
                model@ == text::trimmed(input.model@) ==> #[trigger] create_local_agent.requires(
                    (model, input.name),
                ),
        ensures
            text::trimmed(input.model@).len() == 0 ==> r is Err && is_tool_error(
                r->Err_0,
                "missing_model"@,
                "model is required (from cursor_list_models)"@,
            ),
            text::trimmed(input.model@).len() > 0 ==> exists|
                model: &str,
                made: Result<CreateAgentResult, CursorCallError>,
            |
                {
                    &&& model@ == text::trimmed(input.model@)
                    &&& #[trigger] create_local_agent.ensures((model, input.name), made)
                    &&& match made {
                        Ok(agent) => r is Ok && r->Ok_0.agent_id == agent.agent_id
                            && r->Ok_0.model == agent.model,
                        Err(e) => r is Err && is_call_error(
                            r->Err_0,
                            CURSOR_CREATE_AGENT_TOOL_NAME@,
                            e,
                        ),
                    }
                },
    {
        let model = text::trim(input.model.as_str());
        if model.as_str().is_empty() {
            return Err(
                ToolError::custom(
                    "missing_model",
                    "model is required (from cursor_list_models)".to_owned(),
                ),
            );
        }
        let id: &str = model.as_str();
        let ghost name = input.name;
        let made = create_local_agent(id, input.name);
        let ghost m = made;
        assert(create_local_agent.ensures((id, name), m));
        match made {
            Ok(agent) => Ok(
                CursorCreateAgentOutput { agent_id: agent.agent_id, model: agent.model },
            ),
            Err(e) => Err(call_error(CURSOR_CREATE_AGENT_TOOL_NAME, e)),
        }
    }
}

#[derive(Debug)]
pub struct CursorSendInput {
    pub agent_id: String,
    pub message: String,
}

#[derive(Debug)]
pub struct CursorSendOutput {
    pub run_id: String,
    pub text: String,
    pub status: String,
    pub error: Option<String>,
}

/// What the `cursor_send` tool is for.
pub const CURSOR_SEND_DESCRIPTION: &'static str =
    "Send a prompt to an existing Cursor agent and wait for the run result. Use the same agent_id for multi-turn. Requires the SDK Bridge sidecar.";

#[derive(Debug)]
pub struct CursorSendTool;

/// What is wrong with the input of `cursor_send`, as a code and a message.
pub open spec fn send_fault(input: CursorSendInput) -> Option<(Seq<char>, Seq<char>)> {
    if text::trimmed(input.agent_id@).len() == 0 {
        Some(("missing_agent_id"@, "agent_id is required"@))
    } else if text::trimmed(input.message@).len() == 0 {
        Some(("empty_message"@, "message must not be blank"@))
    } else {
        None
    }
}

impl CursorSendTool {
    /// The name of the tool.
    pub fn id(&self) -> (r: &'static str)
        ensures
            r@ == CURSOR_SEND_TOOL_NAME@,
    {
        CURSOR_SEND_TOOL_NAME
    }

    pub fn kind(&self) -> (r: ToolKind)
        ensures
            r == ToolKind::Execute,
    {
        ToolKind::Execute
    }

    pub fn tool_namespace(&self) -> (r: ToolNamespace)
        ensures
            r == ToolNamespace::Cursor,
    {
        ToolNamespace::Cursor
    }

    pub fn description_template(&self) -> (r: &'static str)
        ensures
            r@ == CURSOR_SEND_DESCRIPTION@,
    {
        CURSOR_SEND_DESCRIPTION
    }

    pub fn capabilities(&self) -> (r: ToolCapabilities)
        ensures
            r == (ToolCapabilities { is_read_only: false, tool_scope: ToolScope::Write }),
    {
        ToolCapabilities { is_read_only: false, tool_scope: ToolScope::Write }
    }

    /// Send a prompt; a blank agent id or message is refused before anything is
    /// asked of the SDK.
    pub fn run<S: FnOnce(&str, &str) -> Result<SendResult, CursorCallError>>(
        &self,
        input: &CursorSendInput,
        send: S,
    ) -> (r: Result<CursorSendOutput, ToolError>)
        requires
            send_fault(*input) is None ==> forall|agent: &str, prompt: &str|
                agent@ == text::trimmed(input.agent_id@) && prompt@ == text::trimmed(input.message@)
                    ==> #[trigger] send.requires((agent, prompt)),
        ensures
            match send_fault(*input) {
                Some((code, why)) => r is Err && is_tool_error(r->Err_0, code, why),
                None => exists|
                    agent: &str,
                    prompt: &str,
                    sent: Result<SendResult, CursorCallError>,
                |
                    {
                        &&& agent@ == text::trimmed(input.agent_id@)
                        &&& prompt@ == text::trimmed(input.message@)
                        &&& #[trigger] send.ensures((agent, prompt), sent)
                        &&& match sent {
                            Ok(run) => r == Ok::<CursorSendOutput, ToolError>(
                                CursorSendOutput {
                                    run_id: run.run_id,
                                    text: run.text,
                                    status: run.status,
                                    error: run.error,
                                },
                            ),
                            Err(e) => r is Err && is_call_error(
                                r->Err_0,
                                CURSOR_SEND_TOOL_NAME@,
                                e,
                            ),
                        }
                    },
            },
    {
        let agent_id = text::trim(input.agent_id.as_str());
        if agent_id.as_str().is_empty() {
            return Err(ToolError::custom("missing_agent_id", "agent_id is required".to_owned()));
        }
        let message = text::trim(input.message.as_str());
        if message.as_str().is_empty() {
            return Err(
                ToolError::custom("empty_message", "message must not be blank".to_owned()),
            );
        }
        let agent: &str = agent_id.as_str();
        let prompt: &str = message.as_str();
        let sent = send(agent, prompt);
        let ghost s = sent;
        assert(send.ensures((agent, prompt), s));
        match sent {
            Ok(run) => Ok(
                CursorSendOutput {
                    run_id: run.run_id,
                    text: run.text,
                    status: run.status,
                    error: run.error,
                },
            ),
            Err(e) => Err(call_error(CURSOR_SEND_TOOL_NAME, e)),
        }
    }
}

#[derive(Debug)]
pub struct CursorListAgentsInput {}

#[derive(Debug)]
pub struct CursorAgentInfo {
    pub agent_id: String,
    pub name: String,
    pub summary: String,
    pub archived: bool,
}

#[derive(Debug)]
pub struct CursorListAgentsOutput {
    pub agents: Vec<CursorAgentInfo>,
}

/// What the `cursor_list_agents` tool is for.
pub const CURSOR_LIST_AGENTS_DESCRIPTION: &'static str =
    "List Cursor agents visible to this workspace via the SDK Bridge. Use an agent_id with cursor_send to continue a conversation.";

#[derive(Debug)]
pub struct CursorListAgentsTool;

/// `info` tells of `a`.
pub open spec fn tells_of_agent(info: CursorAgentInfo, a: AgentSummary) -> bool {
    &&& info.agent_id@ == a.agent_id@
    &&& info.name@ == a.name@
    &&& info.summary@ == a.summary@
    &&& info.archived == a.archived
}

/// `infos` tell of `agents`, one by one.
pub open spec fn tell_of_agents(infos: Seq<CursorAgentInfo>, agents: Seq<AgentSummary>) -> bool {
    &&& infos.len() == agents.len()
    &&& forall|i: int|
        0 <= i < infos.len() ==> tells_of_agent(#[trigger] infos[i], agents[i])
}

impl CursorListAgentsTool {
    /// The name of the tool.
    pub fn id(&self) -> (r: &'static str)
        ensures
            r@ == CURSOR_LIST_AGENTS_TOOL_NAME@,
    {
        CURSOR_LIST_AGENTS_TOOL_NAME
    }

    pub fn kind(&self) -> (r: ToolKind)
        ensures
            r == ToolKind::List,
    {
        ToolKind::List
    }

    pub fn tool_namespace(&self) -> (r: ToolNamespace)
        ensures
            r == ToolNamespace::Cursor,
    {
        ToolNamespace::Cursor
    }

    pub fn description_template(&self) -> (r: &'static str)
        ensures
            r@ == CURSOR_LIST_AGENTS_DESCRIPTION@,
    {
        CURSOR_LIST_AGENTS_DESCRIPTION
    }

    pub fn capabilities(&self) -> (r: ToolCapabilities)
        ensures
            r == (ToolCapabilities { is_read_only: true, tool_scope: ToolScope::Read }),
    {
        ToolCapabilities { is_read_only: true, tool_scope: ToolScope::Read }
    }

    /// List the agents that the SDK knows.
    pub fn run<L: FnOnce() -> Result<Vec<AgentSummary>, CursorCallError>>(
        &self,
        _input: &CursorListAgentsInput,
        list_agents: L,
    ) -> (r: Result<CursorListAgentsOutput, ToolError>)
        requires
            list_agents.requires(()),
        ensures
            exists|agents: Result<Vec<AgentSummary>, CursorCallError>| #[trigger]
                list_agents.ensures((), agents) && match agents {
                    Ok(list) => r is Ok && tell_of_agents(r->Ok_0.agents@, list@),
                    Err(e) => r is Err && is_call_error(
                        r->Err_0,
                        CURSOR_LIST_AGENTS_TOOL_NAME@,
                        e,
                    ),
                },
    {
        let listing = list_agents();
        let ghost l = listing;
        assert(list_agents.ensures((), l));
        let list = match listing {
            Ok(list) => list,
            Err(e) => return Err(call_error(CURSOR_LIST_AGENTS_TOOL_NAME, e)),
        };
        let mut agents: Vec<CursorAgentInfo> = Vec::new();
        let mut i: usize = 0;
        while i < list.len()
            invariant
                i <= list@.len(),
                agents@.len() == i,
                forall|j: int| 0 <= j < i ==> tells_of_agent(#[trigger] agents@[j], list@[j]),
            decreases list@.len() - i,
        {
            let a = &list[i];
            agents.push(
                CursorAgentInfo {
                    agent_id: a.agent_id.clone(),
                    name: a.name.clone(),
                    summary: a.summary.clone(),
                    archived: a.archived,
                },
            );
            i += 1;
        }
        Ok(CursorListAgentsOutput { agents })
    }
}

// -- Laws -------------------------------------------------------------------

/// The tool and the MCP server accept the same messages: each refuses a message
/// that the other refuses, when there is a target.
pub proof fn tool_and_server_refuse_alike(to: Seq<char>, message: Seq<char>)
    requires
        text::trimmed(to).len() > 0,
    ensures
        message_fault(message) is Some <==> send::refusal(to, message) is Some,
        message_fault(message) matches Some((code, why)) ==> send::refusal(to, message)->0.detail
            == why,
{
}

/// The name of a session that is registered once is the name of its record.
pub proof fn sender_is_known_by_its_record(live: Seq<PeerRecord>, i: int)
    requires
        registry::one_record_each(live),
        0 <= i < live.len(),
    ensures
        sender_name(live, live[i].session_id@) == live[i].name@,
    decreases live.len(),
{
    if i > 0 {
        let rest = live.drop_first();
        assert(live[0].session_id@ != live[i].session_id@);
        assert forall|a: int, b: int| 0 <= a < b < rest.len() implies (
        #[trigger] rest[a]).session_id@ != (#[trigger] rest[b]).session_id@ by {
            assert(rest[a] == live[a + 1] && rest[b] == live[b + 1]);
        }
        assert(rest[i - 1] == live[i]);
        sender_is_known_by_its_record(rest, i - 1);
    }
}

/// A peer is told of as it is listed: its name, its session id, its directory and
/// its note, and the end of its session id.
pub proof fn peers_are_told_of_as_listed(infos: Seq<PeerInfo>, peers: Seq<PeerRecord>, i: int)
    requires
        tell_of(infos, peers),
        0 <= i < peers.len(),
    ensures
        infos.len() == peers.len(),
        infos[i].name@ == peers[i].name@,
        infos[i].session_id@ == peers[i].session_id@,
        infos[i].cwd@ == peers[i].cwd@,
        infos[i].note is Some <==> peers[i].note is Some,
        infos[i].note matches Some(note) ==> note@ == peers[i].note->0@,
        infos[i].short_id@ == naming::at_end(naming::compact_id(peers[i].session_id@), 8),
{
    assert(tells_of(infos[i], peers[i]));
}

/// The name of a session is that of its first record, wherever it stands; a session
/// without a record has none, and sends as `unknown`.
pub proof fn session_is_known_by_its_first_record(
    live: Seq<PeerRecord>,
    session_id: Seq<char>,
    i: int,
)
    requires
        0 <= i <= live.len(),
        forall|j: int| 0 <= j < i ==> (#[trigger] live[j]).session_id@ != session_id,
        i < live.len() ==> live[i].session_id@ == session_id,
    ensures
        i < live.len() ==> name_of(live, session_id) == Some(live[i].name@) && sender_name(
            live,
            session_id,
        ) == live[i].name@,
        i == live.len() ==> name_of(live, session_id) is None && sender_name(live, session_id)
            == "unknown"@,
    decreases live.len(),
{
    if i > 0 {
        let rest = live.drop_first();
        assert(live[0].session_id@ != session_id);
        assert forall|j: int| 0 <= j < i - 1 implies (#[trigger] rest[j]).session_id@
            != session_id by {
            assert(rest[j] == live[j + 1]);
        }
        session_is_known_by_its_first_record(rest, session_id, i - 1);
    }
}

/// A message is sent on if and only if something is left of it without the white
/// space around it and that takes up at most 32 KiB; the two faults have codes of
/// their own.
pub proof fn messages_are_sent_on(message: Seq<char>)
    ensures
        message_fault(message) is None <==> text::trimmed(message).len() > 0 && encode_utf8(
            text::trimmed(message),
        ).len() <= 32 * 1024,
        text::trimmed(message).len() == 0 ==> (message_fault(message) matches Some((code, _)) && code
            == "empty_message"@),
        encode_utf8(text::trimmed(message)).len() > 32 * 1024 && text::trimmed(message).len() > 0
            ==> (message_fault(message) matches Some((code, _)) && code == "message_too_large"@),
{
}

/// A prompt for Cursor needs an agent and a text; the agent is looked at first.
pub proof fn prompts_need_an_agent_and_a_text(input: CursorSendInput)
    ensures
        send_fault(input) is None <==> text::trimmed(input.agent_id@).len() > 0 && text::trimmed(
            input.message@,
        ).len() > 0,
        text::trimmed(input.agent_id@).len() == 0 ==> (send_fault(input) matches Some((code, _))
            && code == "missing_agent_id"@),
        text::trimmed(input.agent_id@).len() > 0 && text::trimmed(input.message@).len() == 0 ==> (
        send_fault(input) matches Some((code, _)) && code == "empty_message"@),
{
}

/// With the live peers listed and a target given, the tool sends to the peer that
/// the address is routed to, under the name of its own record, and reports what
/// came of it; without a route it reports that.
pub proof fn tool_sends_to_the_routed_peer<
    D: FnOnce(&str, &InboxEnvelope) -> Result<(), InboxSendError>,
>(
    deliver: D,
    self_id: Seq<char>,
    to: Seq<char>,
    message: Seq<char>,
    live: Vec<PeerRecord>,
    r: Result<SendMessageOutput, ToolError>,
)
    requires
        sent_given(deliver, self_id, to, message, Ok::<Vec<PeerRecord>, String>(live), r),
        text::trimmed(to).len() > 0,
    ensures
        r is Ok,
        send::route(live@, self_id, text::trimmed(to)) matches Err(refused) ==> r->Ok_0@ == refused,
        send::route(live@, self_id, text::trimmed(to)) matches Ok(target) ==> {
            &&& r->Ok_0@.to_session_id == target.session_id@
            &&& r->Ok_0@.to_name == target.name@
            &&& exists|path: &str, env: &InboxEnvelope, outcome: Result<(), InboxSendError>|
                {
                    &&& #[trigger] deliver.ensures((path, env), outcome)
                    &&& path@ == target.inbox_path@
                    &&& env.message@ == text::trimmed(message)
                    &&& env.from_session_id@ == self_id
                    &&& env.from_name@ == sender_name(live@, self_id)
                    &&& r->Ok_0@.status == "delivered"@ <==> outcome is Ok
                }
        },
{
    match send::route(live@, self_id, text::trimmed(to)) {
        Ok(target) => {
            let report = r->Ok_0@;
            let from = sender_name(live@, self_id);
            let (path, env, outcome) = choose|
                path: &str,
                env: &InboxEnvelope,
                outcome: Result<(), InboxSendError>,
            |
                {
                    &&& #[trigger] deliver.ensures((path, env), outcome)
                    &&& path@ == target.inbox_path@
                    &&& inbox::carries(*env, from, self_id, text::trimmed(message), Some(from))
                    &&& report == send::sent_report(target, outcome)
                };
            send::delivery_is_reported(target, outcome);
        },
        Err(_) => {},
    }
}

/// A Cursor agent is told of as it is listed: its id, its name, its summary and
/// whether it is archived; all are told of, in order.
pub proof fn agents_are_told_of_as_listed(
    infos: Seq<CursorAgentInfo>,
    agents: Seq<AgentSummary>,
    i: int,
)
    requires
        tell_of_agents(infos, agents),
        0 <= i < agents.len(),
    ensures
        infos.len() == agents.len(),
        infos[i].agent_id@ == agents[i].agent_id@,
        infos[i].name@ == agents[i].name@,
        infos[i].summary@ == agents[i].summary@,
        infos[i].archived == agents[i].archived,
{
    assert(tells_of_agent(infos[i], agents[i]));
}

/// The tool tells of the session itself by its id and its name, and lists as many
/// peers as are shown; a failed listing is an error that says why.
pub proof fn tool_lists_the_shown_peers(
    listing: Result<Vec<PeerRecord>, String>,
    self_id: Seq<char>,
    filter: Option<Seq<char>>,
    r: Result<ListPeersOutput, ToolError>,
)
    requires
        listed(listing, self_id, filter, r),
    ensures
        listing matches Ok(live) ==> (r matches Ok(out) && out.self_session_id@ == self_id
            && text::opt_view(out.self_name) == name_of(live@, self_id) && out.peers@.len()
            == send::shown_peers(live@, self_id, filter).len() && forall|i: int|
            0 <= i < out.peers@.len() ==> (#[trigger] out.peers@[i]).session_id@
                == send::shown_peers(live@, self_id, filter)[i].session_id@),
        listing matches Err(e) ==> (r matches Err(why) && why.code@ == "peer_list_failed"@
            && e@.is_suffix_of(why.message@)),
{
    match listing {
        Err(e) => {
            let m = "Failed to list live peers: "@ + e@;
            assert(m.subrange(m.len() - e@.len(), m.len() as int) =~= e@);
        },
        Ok(live) => {
            let shown = send::shown_peers(live@, self_id, filter);
            let out = r->Ok_0;
            assert forall|i: int| 0 <= i < out.peers@.len() implies (
            #[trigger] out.peers@[i]).session_id@ == shown[i].session_id@ by {
                assert(tells_of(out.peers@[i], shown[i]));
            }
        },
    }
}

/// Without a listing, or without a target, nothing is sent: the error says why the
/// listing failed, or that a target is missing.
pub proof fn nothing_is_sent_without_a_target<
    D: FnOnce(&str, &InboxEnvelope) -> Result<(), InboxSendError>,
>(
    deliver: D,
    self_id: Seq<char>,
    to: Seq<char>,
    message: Seq<char>,
    listing: Result<Vec<PeerRecord>, String>,
    r: Result<SendMessageOutput, ToolError>,
)
    requires
        sent_given(deliver, self_id, to, message, listing, r),
    ensures
        listing matches Err(e) ==> (r matches Err(why) && why.code@ == "peer_list_failed"@
            && e@.is_suffix_of(why.message@)),
        listing is Ok && text::trimmed(to).len() == 0 ==> (r matches Err(why) && why.code@
            == "missing_target"@),
{
    match listing {
        Err(e) => {
            let m = "Failed to list live peers: "@ + e@;
            assert(m.subrange(m.len() - e@.len(), m.len() as int) =~= e@);
        },
        Ok(_) => {},
    }
}

/// A failed call is reported under the name of its tool, one without a client under
/// that of the SDK, with what the error shows.
pub proof fn failed_calls_are_reported(e: ToolError, tool: Seq<char>, why: CursorSdkError)
    ensures
        is_call_error(e, tool, CursorCallError::Failed(why)) ==> e.code@ == tool && e.message@
            == why.shown(),
        is_call_error(e, tool, CursorCallError::NoClient(why)) ==> e.code@ == "cursor_sdk"@
            && e.message@ == why.shown(),
{
}

}
