//! The state of the terminal app that Cursor client mode works on, and what it
//! asks the outside to do.

use vstd::prelude::*;

use std::collections::VecDeque;

use crate::cursor_client;
use crate::cursor_client::{CursorClientSession, CursorModelChoice, CursorProxyProgress, CursorProxyQueued, ModelCache};
use crate::session::Runtimes;
use crate::text;

verus! {

/// One agent of the app.
#[derive(Debug, Clone, Copy, PartialEq, Eq, Structural)]
pub struct AgentId(pub usize);

/// One entry of a scrollback.
#[derive(Debug, Clone, Copy, PartialEq, Eq, Structural)]
pub struct EntryId(pub usize);

// -- Scrollback -------------------------------------------------------------

/// Something shown to the user.
#[derive(Debug, PartialEq, Eq)]
pub enum RenderBlock {
    /// A notice of the app.
    System(String),
    /// What the user (or a peer) asked.
    UserPrompt(String),
    /// What the agent answered.
    AgentMessage(String),
}

/// The text of a block.
pub enum BlockModel {
    System(Seq<char>),
    UserPrompt(Seq<char>),
    AgentMessage(Seq<char>),
}

impl View for RenderBlock {
    type V = BlockModel;

    open spec fn view(&self) -> BlockModel {
        match self {
            RenderBlock::System(s) => BlockModel::System(s@),
            RenderBlock::UserPrompt(s) => BlockModel::UserPrompt(s@),
            RenderBlock::AgentMessage(s) => BlockModel::AgentMessage(s@),
        }
    }
}

/// A block, and whether it is still being written.
#[derive(Debug, PartialEq, Eq)]
pub struct ScrollbackEntry {
    pub block: RenderBlock,
    pub running: bool,
}

/// The contents of an entry.
pub struct EntryModel {
    pub block: BlockModel,
    pub running: bool,
}

impl View for ScrollbackEntry {
    type V = EntryModel;

    open spec fn view(&self) -> EntryModel {
        EntryModel { block: self.block@, running: self.running }
    }
}

/// What is shown to the user, the oldest first.
#[derive(Debug)]
pub struct Scrollback {
    pub entries: Vec<ScrollbackEntry>,
}

impl View for Scrollback {
    type V = Seq<EntryModel>;

    open spec fn view(&self) -> Seq<EntryModel> {
        Seq::new(self.entries@.len(), |i: int| self.entries@[i]@)
    }
}

/// A finished notice.
pub open spec fn notice(shown: Seq<char>) -> EntryModel {
    EntryModel { block: BlockModel::System(shown), running: false }
}

/// The entries with one of them marked as being written or not; an entry that is
/// not there changes nothing.
pub open spec fn with_running(entries: Seq<EntryModel>, id: EntryId, running: bool) -> Seq<
    EntryModel,
> {
    if id.0 < entries.len() {
        entries.update(
            id.0 as int,
            EntryModel { block: entries[id.0 as int].block, running },
        )
    } else {
        entries
    }
}

/// The entries with more text at the end of one agent message; anything else at
/// that place changes nothing.
pub open spec fn with_chunk(entries: Seq<EntryModel>, id: EntryId, chunk: Seq<char>) -> Seq<
    EntryModel,
> {
    if id.0 < entries.len() {
        match entries[id.0 as int].block {
            BlockModel::AgentMessage(s) => entries.update(
                id.0 as int,
                EntryModel {
                    block: BlockModel::AgentMessage(s + chunk),
                    running: entries[id.0 as int].running,
                },
            ),
            _ => entries,
        }
    } else {
        entries
    }
}

impl Scrollback {
    /// Nothing is shown.
    pub fn new() -> (r: Self)
        ensures
            r@ == Seq::<EntryModel>::empty(),
    {
        let r = Scrollback { entries: Vec::new() };
        assert(r@ =~= Seq::<EntryModel>::empty());
        r
    }

    /// Show a block.
    pub fn push_block(&mut self, block: RenderBlock)
        ensures
            final(self)@ == old(self)@.push(EntryModel { block: block@, running: false }),
    {
        let ghost before = self@;
        self.entries.push(ScrollbackEntry { block, running: false });
        assert(self@ =~= before.push(EntryModel { block: block@, running: false }));
    }

    /// Show an empty agent message, to be filled as text arrives.
    pub fn start_streaming_agent(&mut self) -> (r: EntryId)
        ensures
            r.0 == old(self)@.len(),
            final(self)@ == old(self)@.push(
                EntryModel { block: BlockModel::AgentMessage(""@), running: false },
            ),
    {
        let at: usize = self.entries.len();
        self.push_block(RenderBlock::AgentMessage("".to_owned()));
        EntryId(at)
    }

    /// Mark an entry as being written, or as finished.
    pub fn set_entry_running(&mut self, id: EntryId, running: bool)
        ensures
            final(self)@ == with_running(old(self)@, id, running),
    {
        let ghost before = self@;
        if id.0 < self.entries.len() {
            self.entries[id.0].running = running;
        }
        assert(self@ =~= with_running(before, id, running));
    }

    /// Add text to an agent message.
    pub fn push_chunk_to_agent(&mut self, id: EntryId, chunk: &str)
        ensures
            final(self)@ == with_chunk(old(self)@, id, chunk@),
    {
        let ghost before = self@;
        if id.0 < self.entries.len() {
            let longer: Option<String> = match &self.entries[id.0].block {
                RenderBlock::AgentMessage(s) => Some(s.clone().concat(chunk)),
                _ => None,
            };
            match longer {
                Some(s) => {
                    self.entries[id.0].block = RenderBlock::AgentMessage(s);
                },
                None => {},
            }
        }
        assert(self@ =~= with_chunk(before, id, chunk@));
    }
}

// -- Effects ----------------------------------------------------------------

/// Something that the outside is asked to do.
#[derive(Debug, PartialEq, Eq)]
pub enum Effect {
    /// Ask for the Cursor models.
    FetchCursorModels { agent_id: AgentId, cwd: String },
    /// Create a Cursor agent.
    CreateCursorAgent { agent_id: AgentId, cwd: String, model_id: String, display_name: String },
    /// Send a prompt to a Cursor agent.
    CursorProxySend {
        agent_id: AgentId,
        cwd: String,
        cursor_agent_id: String,
        text: String,
        reply_to: Option<String>,
        from_name: String,
        from_session_id: String,
    },
    /// Delete a Cursor agent.
    DeleteCursorAgent { agent_id: AgentId, cwd: String, cursor_agent_id: String },
    /// Send a prompt to Grok.
    SendPrompt { agent_id: AgentId, text: String },
    /// Run a slash command.
    RunSlashCommand { agent_id: AgentId, text: String },
}

/// The contents of an effect.
pub enum EffectModel {
    FetchCursorModels { agent_id: AgentId, cwd: Seq<char> },
    CreateCursorAgent {
        agent_id: AgentId,
        cwd: Seq<char>,
        model_id: Seq<char>,
        display_name: Seq<char>,
    },
    CursorProxySend {
        agent_id: AgentId,
        cwd: Seq<char>,
        cursor_agent_id: Seq<char>,
        text: Seq<char>,
        reply_to: Option<Seq<char>>,
        from_name: Seq<char>,
        from_session_id: Seq<char>,
    },
    DeleteCursorAgent { agent_id: AgentId, cwd: Seq<char>, cursor_agent_id: Seq<char> },
    SendPrompt { agent_id: AgentId, text: Seq<char> },
    RunSlashCommand { agent_id: AgentId, text: Seq<char> },
}

impl View for Effect {
    type V = EffectModel;

    open spec fn view(&self) -> EffectModel {
        match *self {
            Effect::FetchCursorModels { agent_id, cwd } => EffectModel::FetchCursorModels {
                agent_id,
                cwd: cwd@,
            },
            Effect::CreateCursorAgent { agent_id, cwd, model_id, display_name } =>
                EffectModel::CreateCursorAgent {
                agent_id,
                cwd: cwd@,
                model_id: model_id@,
                display_name: display_name@,
            },
            Effect::CursorProxySend {
                agent_id,
                cwd,
                cursor_agent_id,
                text,
                reply_to,
                from_name,
                from_session_id,
            } => EffectModel::CursorProxySend {
                agent_id,
                cwd: cwd@,
                cursor_agent_id: cursor_agent_id@,
                text: text@,
                reply_to: text::opt_view(reply_to),
                from_name: from_name@,
                from_session_id: from_session_id@,
            },
            Effect::DeleteCursorAgent { agent_id, cwd, cursor_agent_id } =>
                EffectModel::DeleteCursorAgent {
                agent_id,
                cwd: cwd@,
                cursor_agent_id: cursor_agent_id@,
            },
            Effect::SendPrompt { agent_id, text } => EffectModel::SendPrompt {
                agent_id,
                text: text@,
            },
            Effect::RunSlashCommand { agent_id, text } => EffectModel::RunSlashCommand {
                agent_id,
                text: text@,
            },
        }
    }
}

/// The contents of some effects in a row.
pub open spec fn effects_in(effects: Seq<Effect>) -> Seq<EffectModel> {
    Seq::new(effects.len(), |i: int| effects[i]@)
}

/// No effects.
pub fn no_effects() -> (r: Vec<Effect>)
    ensures
        effects_in(r@) == Seq::<EffectModel>::empty(),
{
    let r: Vec<Effect> = Vec::new();
    assert(effects_in(r@) =~= Seq::<EffectModel>::empty());
    r
}

/// One effect.
pub fn one_effect(effect: Effect) -> (r: Vec<Effect>)
    ensures
        effects_in(r@) == seq![effect@],
{
    let mut r: Vec<Effect> = Vec::new();
    r.push(effect);
    assert(effects_in(r@) =~= seq![effect@]);
    r
}

// -- Agents -----------------------------------------------------------------

/// Whether an agent is at work.
#[derive(Debug, Clone, Copy, PartialEq, Eq, Structural)]
pub enum AgentState {
    Idle,
    TurnRunning,
}

/// A Grok model that a session can use.
#[derive(Debug, PartialEq, Eq)]
pub struct GrokModel {
    pub id: String,
    pub name: String,
}

/// The session of an agent.
#[derive(Debug)]
pub struct AgentSession {
    pub id: AgentId,
    pub session_id: Option<String>,
    pub cwd: String,
    pub state: AgentState,
    /// The Grok models on offer.
    pub models: Vec<GrokModel>,
}

/// An agent as the app shows it.
#[derive(Debug)]
pub struct AgentView {
    pub session: AgentSession,
    /// The Cursor agent that prompts go to, if the session is a Cursor client.
    pub cursor_client: Option<CursorClientSession>,
    /// Prompts that wait for the current Cursor run.
    pub cursor_proxy_queue: VecDeque<CursorProxyQueued>,
    pub scrollback: Scrollback,
    /// What is typed in the composer.
    pub prompt: String,
    /// Effects to be picked up later.
    pub pending_effects: Vec<Effect>,
}

/// The contents of an agent.
pub struct AgentModel {
    pub id: AgentId,
    pub session_id: Option<Seq<char>>,
    pub cwd: Seq<char>,
    pub state: AgentState,
    pub models: Seq<GrokModel>,
    pub client: Option<cursor_client::ClientModel>,
    pub queue: Seq<cursor_client::QueuedModel>,
    pub scrollback: Seq<EntryModel>,
    pub prompt: Seq<char>,
    pub pending: Seq<EffectModel>,
}

impl View for AgentView {
    type V = AgentModel;

    open spec fn view(&self) -> AgentModel {
        AgentModel {
            id: self.session.id,
            session_id: text::opt_view(self.session.session_id),
            cwd: self.session.cwd@,
            state: self.session.state,
            models: self.session.models@,
            client: match self.cursor_client {
                Some(c) => Some(c@),
                None => None,
            },
            queue: cursor_client::queued_in(self.cursor_proxy_queue@),
            scrollback: self.scrollback@,
            prompt: self.prompt@,
            pending: effects_in(self.pending_effects@),
        }
    }
}

impl AgentView {
    /// An idle agent with nothing on screen.
    pub fn new(id: AgentId, session_id: Option<String>, cwd: String) -> (r: Self)
        ensures
            r@ == (AgentModel {
                id,
                session_id: text::opt_view(session_id),
                cwd: cwd@,
                state: AgentState::Idle,
                models: Seq::empty(),
                client: None,
                queue: Seq::empty(),
                scrollback: Seq::empty(),
                prompt: ""@,
                pending: Seq::empty(),
            }),
    {
        let r = AgentView {
            session: AgentSession {
                id,
                session_id,
                cwd,
                state: AgentState::Idle,
                models: Vec::new(),
            },
            cursor_client: None,
            cursor_proxy_queue: VecDeque::new(),
            scrollback: Scrollback::new(),
            prompt: "".to_owned(),
            pending_effects: Vec::new(),
        };
        assert(r@.queue =~= Seq::<cursor_client::QueuedModel>::empty());
        assert(r@.pending =~= Seq::<EffectModel>::empty());
        r
    }
}

// -- Peers ------------------------------------------------------------------

/// A note still to be written to the registry.
#[derive(Debug, PartialEq, Eq)]
pub struct NoteUpdate {
    pub session_id: String,
    pub note: Option<String>,
}

/// The contents of some note updates in a row.
pub open spec fn notes_in(notes: Seq<NoteUpdate>) -> Seq<(Seq<char>, Option<Seq<char>>)> {
    Seq::new(notes.len(), |i: int| (notes[i].session_id@, text::opt_view(notes[i].note)))
}

/// How the app's sessions stand with their peers: the open inboxes, and the notes
/// still to be written.
pub struct PeerDesk {
    pub runtimes: Runtimes,
    pub notes: Vec<NoteUpdate>,
}

// -- The app ----------------------------------------------------------------

/// What is on screen.
#[derive(Debug, Clone, Copy, PartialEq, Eq, Structural)]
pub enum ActiveView {
    Home,
    Agent(AgentId),
}

/// The app.
pub struct AppView {
    pub agents: Vec<AgentView>,
    pub active_view: ActiveView,
    /// The Cursor models that were fetched.
    pub models: ModelCache,
    pub desk: PeerDesk,
}

/// Something that happened in the app.
#[derive(Debug)]
pub enum Action {
    /// The user entered a prompt.
    SendPrompt(String),
    /// The Cursor models are wanted.
    FetchCursorModels,
    /// The user picked a Cursor model.
    ActivateCursorClient { model_id: String, display_name: String },
    /// A peer sent a message to a session in Cursor client mode.
    CursorProxyInbound {
        session_id: String,
        text: String,
        reply_to: Option<String>,
        from_name: Option<String>,
    },
    /// An effect was carried out.
    TaskComplete(TaskResult),
}

/// What came of an effect.
#[allow(inconsistent_fields)]
#[derive(Debug)]
pub enum TaskResult {
    CursorModelsLoaded { agent_id: AgentId, result: Result<Vec<CursorModelChoice>, String> },
    CursorAgentCreated {
        agent_id: AgentId,
        model_id: String,
        display_name: String,
        result: Result<String, String>,
    },
    CursorProxyProgress { agent_id: AgentId, event: CursorProxyProgress },
    CursorProxySendComplete { agent_id: AgentId, result: Result<String, String> },
}

// -- Laws -------------------------------------------------------------------

/// Marking an entry changes its mark and nothing else on screen.
pub proof fn marking_changes_the_mark_only(entries: Seq<EntryModel>, id: EntryId, running: bool)
    ensures
        with_running(entries, id, running).len() == entries.len(),
        forall|i: int|
            0 <= i < entries.len() ==> {
                let after = #[trigger] with_running(entries, id, running)[i];
                &&& after.block == entries[i].block
                &&& i == id.0 ==> after.running == running
                &&& i != id.0 ==> after.running == entries[i].running
            },
{
}

/// Text that is added to an agent message stands at its end, and nothing else on
/// screen changes.
pub proof fn chunks_go_to_the_end(entries: Seq<EntryModel>, id: EntryId, chunk: Seq<char>)
    ensures
        with_chunk(entries, id, chunk).len() == entries.len(),
        forall|i: int|
            0 <= i < entries.len() ==> {
                let after = #[trigger] with_chunk(entries, id, chunk)[i];
                &&& after.running == entries[i].running
                &&& i != id.0 ==> after.block == entries[i].block
                &&& i == id.0 ==> match entries[i].block {
                    BlockModel::AgentMessage(s) => after.block == BlockModel::AgentMessage(
                        s + chunk,
                    ),
                    _ => after.block == entries[i].block,
                }
            },
{
}

}
