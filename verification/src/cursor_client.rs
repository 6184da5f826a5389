//! Pager-owned Cursor client/proxy session mode (`/model-cursor`).

use vstd::prelude::*;

use crate::app_view;
use crate::app_view::{
    no_effects, one_effect, AgentState, AgentView, Effect, EntryId, NoteUpdate, PeerDesk,
    RenderBlock,
};
use crate::session;
use crate::session::{live_name, set_inbox_mode, InboxMode, Runtimes};
use crate::text;

verus! {

/// Incremental Cursor run update shown in the TUI while `Send` is in flight.
#[derive(Debug, PartialEq, Eq)]
pub enum CursorProxyProgress {
    Status(String),
    AssistantDelta(String),
}

impl Clone for CursorProxyProgress {
    fn clone(&self) -> (r: Self)
        ensures
            r == *self,
    {
        match self {
            CursorProxyProgress::Status(s) => CursorProxyProgress::Status(s.clone()),
            CursorProxyProgress::AssistantDelta(s) => CursorProxyProgress::AssistantDelta(s.clone()),
        }
    }
}

/// One Cursor agent bound to a Grok session that forwards prompts.
#[derive(Debug)]
pub struct CursorClientSession {
    pub model_id: String,
    pub display_name: String,
    pub agent_id: String,
    pub inflight: bool,
    /// Latest status/step label for the turn-status spinner.
    pub activity: Option<String>,
    /// Streaming assistant block, if any text has arrived.
    pub stream_entry: Option<EntryId>,
    pub streamed_text: String,
}

impl Clone for CursorClientSession {
    fn clone(&self) -> (r: Self)
        ensures
            r == *self,
    {
        CursorClientSession {
            model_id: self.model_id.clone(),
            display_name: self.display_name.clone(),
            agent_id: self.agent_id.clone(),
            inflight: self.inflight,
            activity: self.activity.clone(),
            stream_entry: self.stream_entry,
            streamed_text: self.streamed_text.clone(),
        }
    }
}

/// The contents of a client session.
pub struct ClientModel {
    pub model_id: Seq<char>,
    pub display_name: Seq<char>,
    pub agent_id: Seq<char>,
    pub inflight: bool,
    pub activity: Option<Seq<char>>,
    pub stream_entry: Option<EntryId>,
    pub streamed_text: Seq<char>,
}

impl View for CursorClientSession {
    type V = ClientModel;

    open spec fn view(&self) -> ClientModel {
        ClientModel {
            model_id: self.model_id@,
            display_name: self.display_name@,
            agent_id: self.agent_id@,
            inflight: self.inflight,
            activity: text::opt_view(self.activity),
            stream_entry: self.stream_entry,
            streamed_text: self.streamed_text@,
        }
    }
}

/// Prompt waiting because another Cursor send is in flight.
#[derive(Debug)]
pub struct CursorProxyQueued {
    pub text: String,
    pub reply_to: Option<String>,
}

impl Clone for CursorProxyQueued {
    fn clone(&self) -> (r: Self)
        ensures
            r == *self,
    {
        CursorProxyQueued {
            text: self.text.clone(),
            reply_to: self.reply_to.clone(),
        }
    }
}

/// The contents of a waiting prompt.
pub struct QueuedModel {
    pub text: Seq<char>,
    pub reply_to: Option<Seq<char>>,
}

impl View for CursorProxyQueued {
    type V = QueuedModel;

    open spec fn view(&self) -> QueuedModel {
        QueuedModel { text: self.text@, reply_to: text::opt_view(self.reply_to) }
    }
}

/// The contents of some waiting prompts in a row.
pub open spec fn queued_in(queue: Seq<CursorProxyQueued>) -> Seq<QueuedModel> {
    Seq::new(queue.len(), |i: int| queue[i]@)
}

/// A Cursor model offered by `/model-cursor`.
#[derive(Debug, PartialEq, Eq)]
pub struct CursorModelChoice {
    pub id: String,
    pub display_name: String,
    pub description: String,
}

impl Clone for CursorModelChoice {
    fn clone(&self) -> (r: Self)
        ensures
            r == *self,
    {
        CursorModelChoice {
            id: self.id.clone(),
            display_name: self.display_name.clone(),
            description: self.description.clone(),
        }
    }
}

// -- Models -----------------------------------------------------------------

/// The Cursor models that were fetched, and whether a fetch was started.
#[derive(Debug)]
pub struct ModelCache {
    pub models: Option<Vec<CursorModelChoice>>,
    pub fetch_started: bool,
}

impl ModelCache {
    /// Nothing was fetched.
    pub fn new() -> (r: Self)
        ensures
            r.models is None,
            !r.fetch_started,
    {
        ModelCache { models: None, fetch_started: false }
    }

    /// The cached models.
    pub open spec fn cached(&self) -> Option<Seq<CursorModelChoice>> {
        match self.models {
            Some(models) => Some(models@),
            None => None,
        }
    }
}

/// Cached `ListModels` result, if a fetch has succeeded.
pub fn cached_models(cache: &ModelCache) -> (r: Option<Vec<CursorModelChoice>>)
    ensures
        match r {
            Some(models) => cache.cached() == Some(models@),
            None => cache.cached() is None,
        },
{
    match &cache.models {
        Some(models) => {
            let copy = models.clone();
            assert(copy@ =~= models@);
            Some(copy)
        },
        None => None,
    }
}

/// Store models after a successful fetch.
pub fn set_cached_models(cache: &mut ModelCache, models: Vec<CursorModelChoice>)
    ensures
        final(cache).cached() == Some(models@),
        final(cache).fetch_started,
{
    cache.models = Some(models);
    cache.fetch_started = true;
}

/// Allow another fetch after a failure (or in tests).
pub fn reset_models_fetch(cache: &mut ModelCache)
    ensures
        final(cache).models == old(cache).models,
        !final(cache).fetch_started,
{
    cache.fetch_started = false;
}

/// Forget the models, and that they were ever asked for.
pub fn clear_cached_models_for_test(cache: &mut ModelCache)
    ensures
        final(cache).cached() is None,
        !final(cache).fetch_started,
{
    cache.models = None;
    cache.fetch_started = false;
}

/// What a model is shown as: its display name, or its id where that is blank.
pub open spec fn shown_name(m: CursorModelChoice) -> Seq<char> {
    if text::trimmed(m.display_name@).len() == 0 {
        m.id@
    } else {
        m.display_name@
    }
}

/// What a model is shown as.
pub fn display_or_id(m: &CursorModelChoice) -> (r: String)
    ensures
        r@ == shown_name(*m),
{
    if text::trim(m.display_name.as_str()).as_str().is_empty() {
        m.id.clone()
    } else {
        m.display_name.clone()
    }
}

/// The first model with that id, whatever the ASCII case.
pub open spec fn by_id(models: Seq<CursorModelChoice>, wanted: Seq<char>) -> Option<
    CursorModelChoice,
>
    decreases models.len(),
{
    if models.len() == 0 {
        None
    } else if text::lower(models[0].id@) == text::lower(wanted) {
        Some(models[0])
    } else {
        by_id(models.drop_first(), wanted)
    }
}

/// The first model with that display name, whatever the ASCII case.
pub open spec fn by_display_name(models: Seq<CursorModelChoice>, wanted: Seq<char>) -> Option<
    CursorModelChoice,
>
    decreases models.len(),
{
    if models.len() == 0 {
        None
    } else if text::lower(models[0].display_name@) == text::lower(wanted) {
        Some(models[0])
    } else {
        by_display_name(models.drop_first(), wanted)
    }
}

/// The model that an argument stands for, as an id and what it is shown as: a
/// cached model by its id, then one by its display name, and otherwise the
/// argument itself as a raw id. A blank argument stands for none.
pub open spec fn model_for(models: Option<Seq<CursorModelChoice>>, args: Seq<char>) -> Option<
    (Seq<char>, Seq<char>),
> {
    let wanted = text::trimmed(args);
    if wanted.len() == 0 {
        None
    } else {
        match models {
            None => Some((wanted, wanted)),
            Some(list) => match by_id(list, wanted) {
                Some(m) => Some((m.id@, shown_name(m))),
                None => match by_display_name(list, wanted) {
                    Some(m) => Some((m.id@, shown_name(m))),
                    None => Some((wanted, wanted)),
                },
            },
        }
    }
}

fn find_by_id(models: &Vec<CursorModelChoice>, wanted: &str) -> (r: Option<CursorModelChoice>)
    ensures
        r == by_id(models@, wanted@),
{
    let mut i: usize = 0;
    assert(models@.skip(0) =~= models@);
    while i < models.len()
        invariant
            i <= models@.len(),
            by_id(models@, wanted@) == by_id(models@.skip(i as int), wanted@),
        decreases models@.len() - i,
    {
        if text::eq_ignore_ascii_case(models[i].id.as_str(), wanted) {
            return Some(models[i].clone());
        }
        assert(models@.skip(i as int).drop_first() =~= models@.skip(i + 1));
        i += 1;
    }
    None
}

fn find_by_display_name(models: &Vec<CursorModelChoice>, wanted: &str) -> (r: Option<
    CursorModelChoice,
>)
    ensures
        r == by_display_name(models@, wanted@),
{
    let mut i: usize = 0;
    assert(models@.skip(0) =~= models@);
    while i < models.len()
        invariant
            i <= models@.len(),
            by_display_name(models@, wanted@) == by_display_name(
                models@.skip(i as int),
                wanted@,
            ),
        decreases models@.len() - i,
    {
        if text::eq_ignore_ascii_case(models[i].display_name.as_str(), wanted) {
            return Some(models[i].clone());
        }
        assert(models@.skip(i as int).drop_first() =~= models@.skip(i + 1));
        i += 1;
    }
    None
}

/// Resolve a `/model-cursor` argument against the cache, or accept a raw id.
pub fn resolve_model_arg(cache: &ModelCache, args: &str) -> (r: Option<(String, String)>)
    ensures
        match r {
            Some((id, shown)) => model_for(cache.cached(), args@) == Some((id@, shown@)),
            None => model_for(cache.cached(), args@) is None,
        },
{
    let wanted = text::trim(args);
    if wanted.as_str().is_empty() {
        return None;
    }
    match &cache.models {
        Some(models) => {
            match find_by_id(models, wanted.as_str()) {
                Some(m) => {
                    let shown = display_or_id(&m);
                    return Some((m.id, shown));
                },
                None => {},
            }
            match find_by_display_name(models, wanted.as_str()) {
                Some(m) => {
                    let shown = display_or_id(&m);
                    return Some((m.id, shown));
                },
                None => {},
            }
        },
        None => {},
    }
    Some((wanted.clone(), wanted))
}

/// `prompt` is `command`, alone or with an argument.
pub open spec fn is_command(prompt: Seq<char>, command: Seq<char>) -> bool {
    let line = text::trimmed_start(prompt);
    &&& command.is_prefix_of(line)
    &&& line.len() == command.len() || text::white_space(line[command.len() as int])
}

/// The composer is on `/model-cursor`.
pub open spec fn on_model_cursor(prompt: Seq<char>) -> bool {
    is_command(prompt, "/model-cursor"@) || is_command(prompt, "/cursor-model"@)
}

/// True when `prompt` is `command`, alone or with an argument.
pub fn prompt_is_command(prompt: &str, command: &str) -> (r: bool)
    ensures
        r == is_command(prompt@, command@),
{
    let line = text::trim_start(prompt);
    match text::strip_prefix(line.as_str(), command) {
        Some(rest) => {
            let chars = text::chars_of(rest.as_str());
            if chars.len() == 0 {
                true
            } else {
                assert(chars@[0] == line@[command@.len() as int]);
                text::is_white_space(chars[0])
            }
        },
        None => false,
    }
}

/// True when the composer is on `/model-cursor` and we have not fetched yet.
pub fn should_prefetch_models(cache: &ModelCache, prompt: &str) -> (r: bool)
    ensures
        r == (cache.cached() is None && !cache.fetch_started && on_model_cursor(prompt@)),
{
    if cache.models.is_some() || cache.fetch_started {
        return false;
    }
    prompt_is_command(prompt, "/model-cursor") || prompt_is_command(prompt, "/cursor-model")
}

/// Mark a fetch as started. Returns true if this caller should emit the effect.
pub fn mark_fetch_started(cache: &mut ModelCache) -> (r: bool)
    ensures
        r == !old(cache).fetch_started,
        final(cache).fetch_started,
        final(cache).models == old(cache).models,
{
    let started: bool = cache.fetch_started;
    cache.fetch_started = true;
    !started
}

/// Status-bar / prompt label when Cursor client mode is active.
pub fn status_label(session: &CursorClientSession) -> (r: String)
    ensures
        r@ == "Cursor · "@ + session.display_name@,
{
    "Cursor · ".to_owned().concat(session.display_name.as_str())
}

// -- Peers ------------------------------------------------------------------

/// Switching the inbox of a session, and the note beside it, turns `before` into
/// `after`. An agent without a session changes nothing.
pub open spec fn switches_peers(
    before: PeerDesk,
    after: PeerDesk,
    session_id: Option<Seq<char>>,
    mode: InboxMode,
    note: Option<Seq<char>>,
) -> bool {
    match session_id {
        None => after == before,
        Some(id) => {
            &&& after.runtimes.info(id) == match before.runtimes.info(id) {
                Some(info) => Some(session::RuntimeInfo { name: info.name, mode }),
                None => None,
            }
            &&& after.runtimes.others_as_in(&before.runtimes, id)
            &&& app_view::notes_in(after.notes@) == app_view::notes_in(before.notes@).push(
                (id, note),
            )
        },
    }
}

fn switch_peers(
    desk: &mut PeerDesk,
    session_id: &Option<String>,
    mode: InboxMode,
    note: Option<String>,
)
    ensures
        switches_peers(
            *old(desk),
            *final(desk),
            text::opt_view(*session_id),
            mode,
            text::opt_view(note),
        ),
{
    match session_id {
        Some(id) => {
            set_inbox_mode(&mut desk.runtimes, id.as_str(), mode);
            let ghost before = app_view::notes_in(desk.notes@);
            desk.notes.push(NoteUpdate { session_id: id.clone(), note });
            assert(app_view::notes_in(desk.notes@) =~= before.push((id@, text::opt_view(note))));
        },
        None => {},
    }
}

// -- Entering and leaving ---------------------------------------------------

/// The notice on leaving client mode.
pub open spec fn left_notice(c: ClientModel) -> app_view::EntryModel {
    app_view::notice(
        "Left Cursor client mode ("@ + c.display_name + "). Prompts go to Grok again."@,
    )
}

/// The agent out of client mode: nothing waits any more, and the Cursor agent is
/// to be deleted.
pub open spec fn left(a: app_view::AgentModel) -> app_view::AgentModel {
    match a.client {
        None => app_view::AgentModel { queue: Seq::empty(), ..a },
        Some(c) => app_view::AgentModel {
            client: None,
            queue: Seq::empty(),
            scrollback: a.scrollback.push(left_notice(c)),
            pending: a.pending.push(
                app_view::EffectModel::DeleteCursorAgent {
                    agent_id: a.id,
                    cwd: a.cwd,
                    cursor_agent_id: c.agent_id,
                },
            ),
            ..a
        },
    }
}

/// Leave Cursor client mode on a specific agent view. The peers of the session
/// get through to Grok again. Returns true if a session was active.
pub fn clear_cursor_client_on_agent(agent: &mut AgentView, desk: &mut PeerDesk) -> (r: bool)
    ensures
        r == (old(agent)@.client is Some),
        final(agent)@ == left(old(agent)@),
        r ==> switches_peers(
            *old(desk),
            *final(desk),
            old(agent)@.session_id,
            InboxMode::Interject,
            None,
        ),
        !r ==> *final(desk) == *old(desk),
{
    let ghost before = agent@;
    agent.cursor_proxy_queue.clear();
    assert(agent@.queue =~= Seq::<QueuedModel>::empty());
    match agent.cursor_client.take() {
        Some(client) => {
            switch_peers(desk, &agent.session.session_id, InboxMode::Interject, None);
            let mut shown = "Left Cursor client mode (".to_owned();
            shown.append(client.display_name.as_str());
            shown.append("). Prompts go to Grok again.");
            agent.scrollback.push_block(RenderBlock::System(shown));
            agent.pending_effects.push(
                Effect::DeleteCursorAgent {
                    agent_id: agent.session.id,
                    cwd: agent.session.cwd.clone(),
                    cursor_agent_id: client.agent_id,
                },
            );
            assert(agent@.pending =~= left(before).pending);
            true
        },
        None => false,
    }
}

/// The agent as a client of a new Cursor agent.
pub open spec fn entered(
    a: app_view::AgentModel,
    model_id: Seq<char>,
    display_name: Seq<char>,
    cursor_agent_id: Seq<char>,
) -> app_view::AgentModel {
    app_view::AgentModel {
        client: Some(
            ClientModel {
                model_id,
                display_name,
                agent_id: cursor_agent_id,
                inflight: false,
                activity: None,
                stream_entry: None,
                streamed_text: ""@,
            },
        ),
        queue: Seq::empty(),
        scrollback: a.scrollback.push(
            app_view::notice(
                "Cursor client mode: "@ + display_name
                    + ". Prompts (and peer messages) go to Cursor. /model <grok> returns to Grok."@,
            ),
        ),
        ..a
    }
}

/// Bind a created Cursor agent and switch the peer inbox to proxy mode.
pub fn activate_on_agent(
    agent: &mut AgentView,
    desk: &mut PeerDesk,
    model_id: String,
    display_name: String,
    cursor_agent_id: String,
)
    ensures
        final(agent)@ == entered(old(agent)@, model_id@, display_name@, cursor_agent_id@),
        switches_peers(
            *old(desk),
            *final(desk),
            old(agent)@.session_id,
            InboxMode::CursorProxy,
            Some("cursor:"@ + model_id@),
        ),
{
    let note = "cursor:".to_owned().concat(model_id.as_str());
    let mut shown = "Cursor client mode: ".to_owned();
    shown.append(display_name.as_str());
    shown.append(". Prompts (and peer messages) go to Cursor. /model <grok> returns to Grok.");
    agent.cursor_client = Some(
        CursorClientSession {
            model_id,
            display_name,
            agent_id: cursor_agent_id,
            inflight: false,
            activity: None,
            stream_entry: None,
            streamed_text: "".to_owned(),
        },
    );
    agent.cursor_proxy_queue.clear();
    assert(agent@.queue =~= Seq::<QueuedModel>::empty());
    switch_peers(desk, &agent.session.session_id, InboxMode::CursorProxy, Some(note));
    agent.scrollback.push_block(RenderBlock::System(shown));
}

// -- Runs -------------------------------------------------------------------

/// The agent with a Cursor run in flight.
pub open spec fn begun(a: app_view::AgentModel) -> app_view::AgentModel {
    app_view::AgentModel {
        state: AgentState::TurnRunning,
        client: match a.client {
            Some(c) => Some(
                ClientModel {
                    inflight: true,
                    activity: Some("working"@),
                    stream_entry: None,
                    streamed_text: ""@,
                    ..c
                },
            ),
            None => None,
        },
        ..a
    }
}

/// Mark the session as a live Cursor turn (spinner + follow).
pub fn begin_cursor_run(agent: &mut AgentView)
    ensures
        final(agent)@ == begun(old(agent)@),
{
    agent.session.state = AgentState::TurnRunning;
    match agent.cursor_client.take() {
        Some(mut client) => {
            client.inflight = true;
            client.activity = Some("working".to_owned());
            client.stream_entry = None;
            client.streamed_text = "".to_owned();
            agent.cursor_client = Some(client);
        },
        None => {},
    }
}

/// The session id of an agent, or an empty one.
pub open spec fn session_id_of(a: app_view::AgentModel) -> Seq<char> {
    match a.session_id {
        Some(id) => id,
        None => ""@,
    }
}

/// The effect that sends a prompt to the Cursor agent of a client.
pub open spec fn send_effect(
    a: app_view::AgentModel,
    c: ClientModel,
    runtimes: Runtimes,
    prompt: Seq<char>,
    reply_to: Option<Seq<char>>,
) -> app_view::EffectModel {
    app_view::EffectModel::CursorProxySend {
        agent_id: a.id,
        cwd: a.cwd,
        cursor_agent_id: c.agent_id,
        text: prompt,
        reply_to,
        from_name: match runtimes.info(session_id_of(a)) {
            Some(info) => info.name,
            None => "cursor-proxy"@,
        },
        from_session_id: session_id_of(a),
    }
}

/// Build the send effect from the current Cursor client session.
pub fn cursor_proxy_send_effect(
    agent: &AgentView,
    runtimes: &Runtimes,
    prompt: String,
    reply_to: Option<String>,
) -> (r: Effect)
    requires
        agent@.client is Some,
    ensures
        r@ == send_effect(
            agent@,
            agent@.client->0,
            *runtimes,
            prompt@,
            text::opt_view(reply_to),
        ),
{
    let session_id = match &agent.session.session_id {
        Some(id) => id.clone(),
        None => "".to_owned(),
    };
    let from_name = match live_name(runtimes, session_id.as_str()) {
        Some(name) => name,
        None => "cursor-proxy".to_owned(),
    };
    let cursor_agent_id = match &agent.cursor_client {
        Some(client) => client.agent_id.clone(),
        None => "".to_owned(),
    };
    Effect::CursorProxySend {
        agent_id: agent.session.id,
        cwd: agent.session.cwd.clone(),
        cursor_agent_id,
        text: prompt,
        reply_to,
        from_name,
        from_session_id: session_id,
    }
}

/// The agent after a prompt for Cursor, and the effects: the prompt is shown, and
/// then sent at once, or queued with a notice while another run is in flight.
/// Without a client nothing happens.
pub open spec fn prompted(
    a: app_view::AgentModel,
    runtimes: Runtimes,
    prompt: Seq<char>,
    reply_to: Option<Seq<char>>,
    shown: Seq<char>,
) -> (app_view::AgentModel, Seq<app_view::EffectModel>) {
    match a.client {
        None => (a, Seq::empty()),
        Some(c) => {
            let echoed = app_view::AgentModel {
                scrollback: a.scrollback.push(
                    app_view::EntryModel {
                        block: app_view::BlockModel::UserPrompt(shown),
                        running: false,
                    },
                ),
                ..a
            };
            if c.inflight {
                (
                    app_view::AgentModel {
                        queue: a.queue.push(QueuedModel { text: prompt, reply_to }),
                        scrollback: echoed.scrollback.push(
                            app_view::notice(
                                "Queued — waiting for the current Cursor run to finish."@,
                            ),
                        ),
                        ..a
                    },
                    Seq::empty(),
                )
            } else {
                (begun(echoed), seq![send_effect(a, c, runtimes, prompt, reply_to)])
            }
        },
    }
}

/// Queue or start a Cursor proxy send. Echoes the user text first.
pub fn enqueue_or_send(
    agent: &mut AgentView,
    runtimes: &Runtimes,
    prompt: String,
    reply_to: Option<String>,
    display_text: Option<String>,
) -> (r: Vec<Effect>)
    ensures
        (final(agent)@, app_view::effects_in(r@)) == prompted(
            old(agent)@,
            *runtimes,
            prompt@,
            text::opt_view(reply_to),
            match display_text {
                Some(shown) => shown@,
                None => prompt@,
            },
        ),
{
    let inflight: bool = match &agent.cursor_client {
        Some(client) => client.inflight,
        None => return no_effects(),
    };
    let shown = match display_text {
        Some(shown) => shown,
        None => prompt.clone(),
    };
    let ghost before = agent@;
    agent.scrollback.push_block(RenderBlock::UserPrompt(shown));
    if inflight {
        agent.cursor_proxy_queue.push_back(CursorProxyQueued { text: prompt, reply_to });
        assert(agent@.queue =~= before.queue.push(
            QueuedModel { text: prompt@, reply_to: text::opt_view(reply_to) },
        ));
        agent.scrollback.push_block(
            RenderBlock::System("Queued — waiting for the current Cursor run to finish.".to_owned()),
        );
        return no_effects();
    }
    begin_cursor_run(agent);
    one_effect(cursor_proxy_send_effect(agent, runtimes, prompt, reply_to))
}

/// The agent after a stream event. Without a run in flight nothing happens; a
/// status that is not blank becomes the activity; text goes to the streamed
/// message, which is begun with the first of it.
pub open spec fn progressed(a: app_view::AgentModel, event: CursorProxyProgress) -> app_view::AgentModel {
    if !(a.client matches Some(c) && c.inflight) {
        a
    } else {
        let c = a.client->0;
        match event {
            CursorProxyProgress::Status(s) => if text::trimmed(s@).len() == 0 {
                a
            } else {
                app_view::AgentModel {
                    client: Some(ClientModel { activity: Some(text::trimmed(s@)), ..c }),
                    ..a
                }
            },
            CursorProxyProgress::AssistantDelta(delta) => if delta@.len() == 0 {
                a
            } else {
                let (id, entries) = match c.stream_entry {
                    Some(id) => (id, a.scrollback),
                    None => (
                        EntryId(a.scrollback.len() as usize),
                        a.scrollback.push(
                            app_view::EntryModel {
                                block: app_view::BlockModel::AgentMessage(""@),
                                running: true,
                            },
                        ),
                    ),
                };
                app_view::AgentModel {
                    client: Some(
                        ClientModel {
                            activity: Some("responding"@),
                            stream_entry: Some(id),
                            streamed_text: c.streamed_text + delta@,
                            ..c
                        },
                    ),
                    scrollback: app_view::with_chunk(entries, id, delta@),
                    ..a
                }
            },
        }
    }
}

/// Apply a stream event to the live Cursor turn.
pub fn apply_progress(agent: &mut AgentView, event: CursorProxyProgress)
    ensures
        final(agent)@ == progressed(old(agent)@, event),
{
    let ghost before = agent@;
    let stream_entry: Option<EntryId> = match &agent.cursor_client {
        Some(client) => {
            if !client.inflight {
                return ;
            }
            client.stream_entry
        },
        None => return ,
    };
    match event {
        CursorProxyProgress::Status(s) => {
            let trimmed = text::trim(s.as_str());
            if trimmed.as_str().is_empty() {
                return ;
            }
            match agent.cursor_client.take() {
                Some(mut client) => {
                    client.activity = Some(trimmed);
                    agent.cursor_client = Some(client);
                },
                None => {},
            }
        },
        CursorProxyProgress::AssistantDelta(delta) => {
            if delta.as_str().is_empty() {
                return ;
            }
            let id = match stream_entry {
                Some(id) => id,
                None => {
                    let id = agent.scrollback.start_streaming_agent();
                    agent.scrollback.set_entry_running(id, true);
                    assert(agent.scrollback@ =~= before.scrollback.push(
                        app_view::EntryModel {
                            block: app_view::BlockModel::AgentMessage(""@),
                            running: true,
                        },
                    ));
                    id
                },
            };
            match agent.cursor_client.take() {
                Some(mut client) => {
                    client.activity = Some("responding".to_owned());
                    client.stream_entry = Some(id);
                    client.streamed_text.append(delta.as_str());
                    agent.cursor_client = Some(client);
                },
                None => {},
            }
            agent.scrollback.push_chunk_to_agent(id, delta.as_str());
        },
    }
}

/// The agent after its Cursor run ended, and whether text was streamed.
pub open spec fn finished(a: app_view::AgentModel) -> (app_view::AgentModel, bool) {
    match a.client {
        None => (app_view::AgentModel { state: AgentState::Idle, ..a }, false),
        Some(c) => (
            app_view::AgentModel {
                state: AgentState::Idle,
                client: Some(
                    ClientModel { activity: None, stream_entry: None, streamed_text: ""@, ..c },
                ),
                scrollback: match c.stream_entry {
                    Some(id) => app_view::with_running(a.scrollback, id, false),
                    None => a.scrollback,
                },
                ..a
            },
            text::trimmed(c.streamed_text).len() > 0,
        ),
    }
}

/// End the live Cursor turn. Returns true if assistant text was already streamed.
pub fn finish_cursor_run(agent: &mut AgentView) -> (r: bool)
    ensures
        (final(agent)@, r) == finished(old(agent)@),
{
    agent.session.state = AgentState::Idle;
    match agent.cursor_client.take() {
        Some(mut client) => {
            client.activity = None;
            let streamed: bool = !text::trim(client.streamed_text.as_str()).as_str().is_empty();
            let entry = client.stream_entry;
            client.stream_entry = None;
            client.streamed_text = "".to_owned();
            agent.cursor_client = Some(client);
            match entry {
                Some(id) => agent.scrollback.set_entry_running(id, false),
                None => {},
            }
            streamed
        },
        None => false,
    }
}

/// The agent after a send completed, and the effects: the next waiting prompt is
/// sent, or the client is free again.
pub open spec fn drained(a: app_view::AgentModel, runtimes: Runtimes) -> (
    app_view::AgentModel,
    Seq<app_view::EffectModel>,
) {
    if a.queue.len() == 0 {
        (
            app_view::AgentModel {
                client: match a.client {
                    Some(c) => Some(ClientModel { inflight: false, ..c }),
                    None => None,
                },
                ..a
            },
            Seq::empty(),
        )
    } else {
        let next = a.queue[0];
        (
            begun(app_view::AgentModel { queue: a.queue.drop_first(), ..a }),
            seq![send_effect(a, a.client->0, runtimes, next.text, next.reply_to)],
        )
    }
}

/// Prompts only wait for a client.
pub open spec fn waits_for_client(a: app_view::AgentModel) -> bool {
    a.queue.len() > 0 ==> a.client is Some
}

/// After a send completes, drain the next queued prompt if any.
pub fn drain_queued_send(agent: &mut AgentView, runtimes: &Runtimes) -> (r: Vec<Effect>)
    requires
        waits_for_client(old(agent)@),
    ensures
        (final(agent)@, app_view::effects_in(r@)) == drained(old(agent)@, *runtimes),
{
    let ghost before = agent@;
    match agent.cursor_proxy_queue.pop_front() {
        Some(next) => {
            assert(agent@.queue =~= before.queue.drop_first());
            assert(before.queue[0] == next@);
            begin_cursor_run(agent);
            one_effect(cursor_proxy_send_effect(agent, runtimes, next.text, next.reply_to))
        },
        None => {
            match agent.cursor_client.take() {
                Some(mut client) => {
                    client.inflight = false;
                    agent.cursor_client = Some(client);
                },
                None => {},
            }
            no_effects()
        },
    }
}

/// Prefetch hook used from the agent draw path.
pub fn maybe_prefetch_models(agent: &mut AgentView, cache: &mut ModelCache)
    ensures
        final(cache).models == old(cache).models,
        ({
            let due = old(cache).cached() is None && !old(cache).fetch_started && on_model_cursor(
                old(agent)@.prompt,
            );
            &&& final(cache).fetch_started == (old(cache).fetch_started || due)
            &&& final(agent)@ == if due {
                app_view::AgentModel {
                    pending: old(agent)@.pending.push(
                        app_view::EffectModel::FetchCursorModels {
                            agent_id: old(agent)@.id,
                            cwd: old(agent)@.cwd,
                        },
                    ),
                    ..old(agent)@
                }
            } else {
                old(agent)@
            }
        }),
{
    if !should_prefetch_models(cache, agent.prompt.as_str()) {
        return ;
    }
    if !mark_fetch_started(cache) {
        return ;
    }
    let ghost before = agent@.pending;
    agent.pending_effects.push(
        Effect::FetchCursorModels { agent_id: agent.session.id, cwd: agent.session.cwd.clone() },
    );
    assert(agent@.pending =~= before.push(
        app_view::EffectModel::FetchCursorModels { agent_id: agent@.id, cwd: agent@.cwd },
    ));
}

// -- Laws -------------------------------------------------------------------

/// Prompts wait only while a run is in flight.
pub open spec fn orderly(a: app_view::AgentModel) -> bool {
    a.queue.len() > 0 ==> (a.client matches Some(c) && c.inflight)
}

/// Whatever happens to an agent, prompts wait only while a run is in flight.
pub proof fn client_mode_stays_orderly(
    a: app_view::AgentModel,
    runtimes: Runtimes,
    prompt: Seq<char>,
    reply_to: Option<Seq<char>>,
    shown: Seq<char>,
    event: CursorProxyProgress,
    model_id: Seq<char>,
    display_name: Seq<char>,
    cursor_agent_id: Seq<char>,
)
    requires
        orderly(a),
    ensures
        waits_for_client(a),
        orderly(prompted(a, runtimes, prompt, reply_to, shown).0),
        orderly(drained(a, runtimes).0),
        orderly(progressed(a, event)),
        orderly(finished(a).0),
        orderly(left(a)),
        orderly(entered(a, model_id, display_name, cursor_agent_id)),
{
}

/// At most one run is in flight: a prompt is sent only when none is, a completed
/// send starts at most one, and what is sent is then in flight.
pub proof fn one_run_at_a_time(
    a: app_view::AgentModel,
    runtimes: Runtimes,
    prompt: Seq<char>,
    reply_to: Option<Seq<char>>,
    shown: Seq<char>,
)
    requires
        orderly(a),
    ensures
        ({
            let (after, effects) = prompted(a, runtimes, prompt, reply_to, shown);
            &&& effects.len() <= 1
            &&& effects.len() == 1 <==> (a.client matches Some(c) && !c.inflight)
            &&& effects.len() == 1 ==> (after.client matches Some(c) && c.inflight)
        }),
        ({
            let (after, effects) = drained(a, runtimes);
            &&& effects.len() <= 1
            &&& effects.len() == 1 <==> a.queue.len() > 0
            &&& after.client matches Some(c) ==> c.inflight == (effects.len() == 1)
        }),
{
}

/// The prompts that are sent when one send after the other completes.
pub open spec fn drained_prompts(a: app_view::AgentModel, runtimes: Runtimes) -> Seq<QueuedModel>
    decreases a.queue.len(),
{
    if a.queue.len() == 0 {
        Seq::empty()
    } else {
        let (after, effects) = drained(a, runtimes);
        let sent = match effects[0] {
            app_view::EffectModel::CursorProxySend { text, reply_to, .. } => QueuedModel {
                text,
                reply_to,
            },
            _ => a.queue[0],
        };
        seq![sent] + drained_prompts(after, runtimes)
    }
}

/// Waiting prompts are sent in the order in which they came, each with its own
/// reply address, and none is lost.
pub proof fn queue_is_first_in_first_out(a: app_view::AgentModel, runtimes: Runtimes)
    ensures
        drained_prompts(a, runtimes) == a.queue,
    decreases a.queue.len(),
{
    if a.queue.len() > 0 {
        let (after, effects) = drained(a, runtimes);
        queue_is_first_in_first_out(after, runtimes);
        assert(after.queue == a.queue.drop_first());
        assert(seq![a.queue[0]] + a.queue.drop_first() =~= a.queue);
    } else {
        assert(drained_prompts(a, runtimes) =~= a.queue);
    }
}

/// Out of client mode nothing goes to Cursor: a prompt changes nothing and sends
/// nothing, and after leaving nothing waits.
pub proof fn nothing_is_sent_outside_client_mode(
    a: app_view::AgentModel,
    runtimes: Runtimes,
    prompt: Seq<char>,
    reply_to: Option<Seq<char>>,
    shown: Seq<char>,
)
    ensures
        a.client is None ==> prompted(a, runtimes, prompt, reply_to, shown).0 == a && prompted(
            a,
            runtimes,
            prompt,
            reply_to,
            shown,
        ).1.len() == 0,
        left(a).client is None,
        left(a).queue.len() == 0,
        prompted(left(a), runtimes, prompt, reply_to, shown).1.len() == 0,
        drained(left(a), runtimes).1.len() == 0,
{
}

/// Leaving client mode asks for the deletion of the Cursor agent of the session,
/// and of no other.
pub proof fn leaving_deletes_the_cursor_agent(a: app_view::AgentModel)
    ensures
        a.client matches Some(c) ==> left(a).pending == a.pending.push(
            app_view::EffectModel::DeleteCursorAgent {
                agent_id: a.id,
                cwd: a.cwd,
                cursor_agent_id: c.agent_id,
            },
        ),
        a.client is None ==> left(a).pending == a.pending,
{
}

/// A session that entered client mode and left it again delivers its peers'
/// messages to Grok, under the name it had, and its note is cleared last.
pub proof fn leaving_undoes_entering(
    before: PeerDesk,
    entered: PeerDesk,
    after: PeerDesk,
    session_id: Seq<char>,
    note: Option<Seq<char>>,
)
    requires
        switches_peers(before, entered, Some(session_id), InboxMode::CursorProxy, note),
        switches_peers(entered, after, Some(session_id), InboxMode::Interject, None),
    ensures
        before.runtimes.info(session_id) matches Some(info) ==> after.runtimes.info(session_id)
            == Some(session::RuntimeInfo { name: info.name, mode: InboxMode::Interject }),
        before.runtimes.info(session_id) is None ==> after.runtimes.info(session_id) is None,
        after.runtimes.others_as_in(&before.runtimes, session_id),
        app_view::notes_in(after.notes@).last() == (session_id, None::<Seq<char>>),
{
    assert forall|other: Seq<char>| other != session_id implies #[trigger] after.runtimes.info(
        other,
    ) == before.runtimes.info(other) by {
        assert(entered.runtimes.info(other) == before.runtimes.info(other));
    }
}

/// The streamed message on screen is the text streamed so far.
pub open spec fn stream_on_screen(a: app_view::AgentModel) -> bool {
    a.client matches Some(c) ==> match c.stream_entry {
        Some(id) => id.0 < a.scrollback.len() && a.scrollback[id.0 as int].block
            == app_view::BlockModel::AgentMessage(c.streamed_text),
        None => c.streamed_text == ""@,
    }
}

/// The reply is shown as it arrives: progress keeps the streamed message on
/// screen equal to the text streamed so far. A screen holds fewer entries than a
/// machine word can count.
pub proof fn progress_keeps_stream_on_screen(
    a: app_view::AgentModel,
    event: CursorProxyProgress,
)
    requires
        stream_on_screen(a),
        a.scrollback.len() < usize::MAX,
    ensures
        stream_on_screen(progressed(a, event)),
        (a.client matches Some(c) && c.inflight) ==> (event matches
            CursorProxyProgress::AssistantDelta(delta) ==> progressed(
            a,
            event,
        ).client->0.streamed_text == a.client->0.streamed_text + delta@),
{
    if a.client matches Some(c) && c.inflight {
        match event {
            CursorProxyProgress::AssistantDelta(delta) => {
                reveal_strlit("");
                let c = a.client->0;
                if delta@.len() > 0 {
                    if c.stream_entry is None {
                        assert(c.streamed_text + delta@ =~= ""@ + delta@);
                    }
                } else {
                    assert(c.streamed_text + delta@ =~= c.streamed_text);
                }
            },
            _ => {},
        }
    }
}

/// A model is shown under its display name, or under its id where the display
/// name is blank.
pub open spec fn is_shown_as(m: CursorModelChoice, shown: Seq<char>) -> bool {
    if text::trimmed(m.display_name@).len() > 0 {
        shown == m.display_name@
    } else {
        shown == m.id@
    }
}

proof fn lemma_first_by_id(models: Seq<CursorModelChoice>, wanted: Seq<char>, i: int)
    requires
        0 <= i <= models.len(),
        forall|j: int| 0 <= j < i ==> text::lower((#[trigger] models[j]).id@) != text::lower(wanted),
        i < models.len() ==> text::lower(models[i].id@) == text::lower(wanted),
    ensures
        i < models.len() ==> by_id(models, wanted) == Some(models[i]),
        i == models.len() ==> by_id(models, wanted) is None,
    decreases models.len(),
{
    if i > 0 {
        let rest = models.drop_first();
        assert(text::lower(models[0].id@) != text::lower(wanted));
        assert forall|j: int| 0 <= j < i - 1 implies text::lower((#[trigger] rest[j]).id@)
            != text::lower(wanted) by {
            assert(rest[j] == models[j + 1]);
        }
        lemma_first_by_id(rest, wanted, i - 1);
    }
}

proof fn lemma_first_by_display_name(models: Seq<CursorModelChoice>, wanted: Seq<char>, i: int)
    requires
        0 <= i <= models.len(),
        forall|j: int|
            0 <= j < i ==> text::lower((#[trigger] models[j]).display_name@) != text::lower(wanted),
        i < models.len() ==> text::lower(models[i].display_name@) == text::lower(wanted),
    ensures
        i < models.len() ==> by_display_name(models, wanted) == Some(models[i]),
        i == models.len() ==> by_display_name(models, wanted) is None,
    decreases models.len(),
{
    if i > 0 {
        let rest = models.drop_first();
        assert(text::lower(models[0].display_name@) != text::lower(wanted));
        assert forall|j: int| 0 <= j < i - 1 implies text::lower(
            (#[trigger] rest[j]).display_name@,
        ) != text::lower(wanted) by {
            assert(rest[j] == models[j + 1]);
        }
        lemma_first_by_display_name(rest, wanted, i - 1);
    }
}

/// An argument that is the id of a cached model, whatever the ASCII case and the
/// white space around it, stands for the first such model, wherever in the list
/// it is.
pub proof fn model_is_found_by_its_id(
    models: Seq<CursorModelChoice>,
    args: Seq<char>,
    i: int,
)
    requires
        text::trimmed(args).len() > 0,
        0 <= i < models.len(),
        text::lower(models[i].id@) == text::lower(text::trimmed(args)),
        forall|j: int|
            0 <= j < i ==> text::lower((#[trigger] models[j]).id@) != text::lower(
                text::trimmed(args),
            ),
    ensures
        model_for(Some(models), args) matches Some((id, shown)) && id == models[i].id@
            && is_shown_as(models[i], shown),
{
    lemma_first_by_id(models, text::trimmed(args), i);
}

/// An argument that is no id but the display name of a cached model stands for
/// the first such model, wherever in the list it is.
pub proof fn model_is_found_by_its_display_name(
    models: Seq<CursorModelChoice>,
    args: Seq<char>,
    i: int,
)
    requires
        text::trimmed(args).len() > 0,
        forall|j: int|
            0 <= j < models.len() ==> text::lower((#[trigger] models[j]).id@) != text::lower(
                text::trimmed(args),
            ),
        0 <= i < models.len(),
        text::lower(models[i].display_name@) == text::lower(text::trimmed(args)),
        forall|j: int|
            0 <= j < i ==> text::lower((#[trigger] models[j]).display_name@) != text::lower(
                text::trimmed(args),
            ),
    ensures
        model_for(Some(models), args) matches Some((id, shown)) && id == models[i].id@
            && is_shown_as(models[i], shown),
{
    lemma_first_by_id(models, text::trimmed(args), models.len() as int);
    lemma_first_by_display_name(models, text::trimmed(args), i);
}

/// An argument stands for itself as a raw id where no models are cached or none of
/// them bears it as its id or display name; a blank one stands for nothing.
pub proof fn unknown_model_stands_for_itself(
    models: Option<Seq<CursorModelChoice>>,
    args: Seq<char>,
)
    requires
        models matches Some(list) ==> forall|j: int|
            0 <= j < list.len() ==> text::lower((#[trigger] list[j]).id@) != text::lower(
                text::trimmed(args),
            ) && text::lower(list[j].display_name@) != text::lower(text::trimmed(args)),
    ensures
        text::trimmed(args).len() > 0 ==> model_for(models, args) == Some(
            (text::trimmed(args), text::trimmed(args)),
        ),
        text::trimmed(args).len() == 0 ==> model_for(models, args) is None,
{
    match models {
        Some(list) => {
            lemma_first_by_id(list, text::trimmed(args), list.len() as int);
            lemma_first_by_display_name(list, text::trimmed(args), list.len() as int);
        },
        None => {},
    }
}

/// A prompt is a command if the command stands first in it but for white space,
/// and is followed by white space or by nothing. Anything that merely begins like
/// it is another command.
pub proof fn commands_end_at_white_space(left: Seq<char>, command: Seq<char>, rest: Seq<char>)
    requires
        forall|i: int| 0 <= i < left.len() ==> text::white_space(#[trigger] left[i]),
        command.len() > 0,
        !text::white_space(command[0]),
    ensures
        is_command(left + command + rest, command) <==> rest.len() == 0 || text::white_space(rest[0]),
{
    let prompt = left + command + rest;
    let line = text::trimmed_start(prompt);
    text::lemma_start_after_white_space(left, command + rest);
    assert(prompt =~= left + (command + rest));
    assert(line == command + rest);
    assert(line.subrange(0, command.len() as int) =~= command);
    if rest.len() > 0 {
        assert(line[command.len() as int] == rest[0]);
    }
}

/// A command stands first in its prompt, behind white space at most.
pub proof fn commands_stand_first(prompt: Seq<char>, command: Seq<char>)
    requires
        is_command(prompt, command),
    ensures
        exists|left: Seq<char>, rest: Seq<char>|
            {
                &&& prompt == #[trigger] (left + command + rest)
                &&& forall|i: int| 0 <= i < left.len() ==> text::white_space(#[trigger] left[i])
            },
{
    let line = text::trimmed_start(prompt);
    let left = text::lemma_start_is_cut_off(prompt);
    let rest = line.skip(command.len() as int);
    assert(line =~= command + rest) by {
        assert(line.subrange(0, command.len() as int) == command);
        assert forall|i: int| 0 <= i < command.len() implies line[i] == command[i] by {
            assert(line.subrange(0, command.len() as int)[i] == line[i]);
        }
    }
    assert(prompt =~= left + command + rest);
}

/// A prompt that can be sent at once goes out as it was typed, with the reply
/// address it came with, to the Cursor agent of the session, from the session and
/// under its live name; it is shown as it is to be shown, and a turn runs.
pub proof fn prompt_goes_out_as_given(
    a: app_view::AgentModel,
    runtimes: Runtimes,
    prompt: Seq<char>,
    reply_to: Option<Seq<char>>,
    shown: Seq<char>,
)
    requires
        a.client matches Some(c) && !c.inflight,
    ensures
        ({
            let (after, effects) = prompted(a, runtimes, prompt, reply_to, shown);
            let id = match a.session_id {
                Some(id) => id,
                None => Seq::empty(),
            };
            &&& effects.len() == 1
            &&& effects[0] matches app_view::EffectModel::CursorProxySend {
                agent_id,
                cwd,
                cursor_agent_id,
                text,
                reply_to: address,
                from_name,
                from_session_id,
            } && {
                &&& agent_id == a.id
                &&& cwd == a.cwd
                &&& cursor_agent_id == a.client->0.agent_id
                &&& text == prompt
                &&& address == reply_to
                &&& from_session_id == id
                &&& runtimes.info(id) matches Some(info) ==> from_name == info.name
                &&& runtimes.info(id) is None ==> from_name == "cursor-proxy"@
            }
            &&& after.state == AgentState::TurnRunning
            &&& after.client matches Some(c) && c.inflight && c.agent_id == a.client->0.agent_id
                && c.model_id == a.client->0.model_id && c.display_name == a.client->0.display_name
                && c.activity is Some && c.stream_entry is None && c.streamed_text.len() == 0
            &&& after.queue == a.queue
            &&& after.scrollback.len() == a.scrollback.len() + 1
            &&& after.scrollback.last().block == app_view::BlockModel::UserPrompt(shown)
            &&& after.scrollback.drop_last() == a.scrollback
        }),
{
    reveal_strlit("");
    let (after, effects) = prompted(a, runtimes, prompt, reply_to, shown);
    assert(after.scrollback.drop_last() =~= a.scrollback);
    assert(""@ =~= Seq::<char>::empty());
}

/// A prompt that comes while a run is in flight is shown and waits behind those
/// that wait already; nothing else changes, and nothing is sent.
pub proof fn prompt_waits_behind_the_run(
    a: app_view::AgentModel,
    runtimes: Runtimes,
    prompt: Seq<char>,
    reply_to: Option<Seq<char>>,
    shown: Seq<char>,
)
    requires
        a.client matches Some(c) && c.inflight,
    ensures
        ({
            let (after, effects) = prompted(a, runtimes, prompt, reply_to, shown);
            &&& effects.len() == 0
            &&& after.queue.len() == a.queue.len() + 1
            &&& after.queue.drop_last() == a.queue
            &&& after.queue.last().text == prompt
            &&& after.queue.last().reply_to == reply_to
            &&& after.client == a.client
            &&& after.state == a.state
            &&& after.pending == a.pending
            &&& after.scrollback.len() == a.scrollback.len() + 2
            &&& after.scrollback.take(a.scrollback.len() as int) == a.scrollback
            &&& after.scrollback[a.scrollback.len() as int].block
                == app_view::BlockModel::UserPrompt(shown)
            &&& after.scrollback.last().block is System
        }),
{
    let (after, effects) = prompted(a, runtimes, prompt, reply_to, shown);
    assert(after.queue.drop_last() =~= a.queue);
    assert(after.scrollback.take(a.scrollback.len() as int) =~= a.scrollback);
}

/// When a send completes, the prompt that waited longest goes to the Cursor agent
/// of the session; what is on screen stays.
pub proof fn waiting_prompt_goes_to_the_cursor_agent(a: app_view::AgentModel, runtimes: Runtimes)
    requires
        a.queue.len() > 0,
        a.client is Some,
    ensures
        ({
            let (after, effects) = drained(a, runtimes);
            &&& effects.len() == 1
            &&& effects[0] matches app_view::EffectModel::CursorProxySend {
                agent_id,
                cwd,
                cursor_agent_id,
                text,
                reply_to,
                from_session_id,
                ..
            } && {
                &&& agent_id == a.id
                &&& cwd == a.cwd
                &&& cursor_agent_id == a.client->0.agent_id
                &&& text == a.queue[0].text
                &&& reply_to == a.queue[0].reply_to
                &&& a.session_id matches Some(id) ==> from_session_id == id
            }
            &&& after.scrollback == a.scrollback
            &&& after.queue.len() == a.queue.len() - 1
            &&& forall|i: int| 0 <= i < after.queue.len() ==> after.queue[i] == a.queue[i + 1]
            &&& after.state == AgentState::TurnRunning
        }),
{
}

/// A status that is not blank becomes the activity and changes nothing else; a
/// blank one, and any event without a run in flight, changes nothing.
pub proof fn status_is_the_activity(a: app_view::AgentModel, event: CursorProxyProgress)
    ensures
        !(a.client matches Some(c) && c.inflight) ==> progressed(a, event) == a,
        (a.client matches Some(c) && c.inflight) ==> (event matches CursorProxyProgress::Status(s)
            ==> text::trimmed(s@).len() > 0 ==> {
            let after = progressed(a, event);
            &&& after.client matches Some(c) && c.activity == Some(text::trimmed(s@))
                && c.stream_entry == a.client->0.stream_entry && c.streamed_text
                == a.client->0.streamed_text && c.inflight
            &&& after.scrollback == a.scrollback
            &&& after.queue == a.queue
            &&& after.state == a.state
        }),
        (event matches CursorProxyProgress::Status(s) && text::trimmed(s@).len() == 0)
            ==> progressed(a, event) == a,
{
}

/// The first text of a run opens a message that is marked as being written, at the
/// end of the screen; further text goes to that same message.
pub proof fn text_streams_into_one_message(a: app_view::AgentModel, delta: String)
    requires
        a.client matches Some(c) && c.inflight,
        delta@.len() > 0,
        a.scrollback.len() < usize::MAX,
    ensures
        ({
            let after = progressed(a, CursorProxyProgress::AssistantDelta(delta));
            &&& after.client is Some && after.client->0.stream_entry is Some
            &&& a.client->0.stream_entry is None ==> {
                &&& after.scrollback.len() == a.scrollback.len() + 1
                &&& after.client->0.stream_entry matches Some(id) && id.0 == a.scrollback.len()
                &&& after.scrollback.last().running
                &&& after.scrollback.last().block == app_view::BlockModel::AgentMessage(delta@)
                &&& after.scrollback.drop_last() == a.scrollback
            }
            &&& a.client->0.stream_entry matches Some(id) ==> {
                &&& after.scrollback.len() == a.scrollback.len()
                &&& after.client->0.stream_entry == Some(id)
                &&& forall|j: int|
                    0 <= j < a.scrollback.len() && j != id.0 ==> after.scrollback[j]
                        == a.scrollback[j]
            }
            &&& after.queue == a.queue
            &&& after.state == a.state
        }),
{
    reveal_strlit("");
    let after = progressed(a, CursorProxyProgress::AssistantDelta(delta));
    if a.client->0.stream_entry is None {
        assert(""@ + delta@ =~= delta@);
        assert(after.scrollback.drop_last() =~= a.scrollback);
    }
}

/// Entering client mode binds the session to the model and the Cursor agent it was
/// given, with nothing in flight and nothing waiting, and says so on screen.
pub proof fn entering_binds_the_cursor_agent(
    a: app_view::AgentModel,
    model_id: Seq<char>,
    display_name: Seq<char>,
    cursor_agent_id: Seq<char>,
)
    ensures
        ({
            let after = entered(a, model_id, display_name, cursor_agent_id);
            &&& after.client matches Some(c) && {
                &&& c.model_id == model_id
                &&& c.display_name == display_name
                &&& c.agent_id == cursor_agent_id
                &&& !c.inflight
                &&& c.activity is None
                &&& c.stream_entry is None
                &&& c.streamed_text.len() == 0
            }
            &&& after.queue.len() == 0
            &&& after.state == a.state
            &&& after.session_id == a.session_id
            &&& after.pending == a.pending
            &&& after.scrollback.drop_last() == a.scrollback
            &&& after.scrollback.last().block matches app_view::BlockModel::System(s)
                && text::has_text(s, display_name)
        }),
{
    reveal_strlit("");
    let after = entered(a, model_id, display_name, cursor_agent_id);
    assert(after.scrollback.drop_last() =~= a.scrollback);
    text::lemma_text_between(
        "Cursor client mode: "@,
        display_name,
        ". Prompts (and peer messages) go to Cursor. /model <grok> returns to Grok."@,
    );
}

/// Leaving client mode drops the client and whatever waits, and says so on screen;
/// an agent out of client mode only loses what waits.
pub proof fn leaving_drops_the_client(a: app_view::AgentModel)
    ensures
        left(a).client is None,
        left(a).queue.len() == 0,
        left(a).state == a.state,
        left(a).session_id == a.session_id,
        a.client is None ==> left(a).scrollback == a.scrollback,
        a.client matches Some(c) ==> {
            &&& left(a).scrollback.drop_last() == a.scrollback
            &&& left(a).scrollback.last().block matches app_view::BlockModel::System(s)
                && text::has_text(s, c.display_name)
        },
{
    match a.client {
        Some(c) => {
            assert(left(a).scrollback.drop_last() =~= a.scrollback);
            text::lemma_text_between(
                "Left Cursor client mode ("@,
                c.display_name,
                "). Prompts go to Grok again."@,
            );
        },
        None => {},
    }
}

/// A run that ended counts as streamed if and only if text came that is not blank.
/// The turn is over, its message is marked as finished, and nothing else on screen
/// changes.
pub proof fn ended_run_is_over(a: app_view::AgentModel)
    ensures
        ({
            let (after, streamed) = finished(a);
            &&& after.state == AgentState::Idle
            &&& streamed <==> (a.client matches Some(c) && text::trimmed(c.streamed_text).len() > 0)
            &&& after.client is Some <==> a.client is Some
            &&& after.client matches Some(c) ==> c.activity is None && c.stream_entry is None
                && c.streamed_text.len() == 0 && c.agent_id == a.client->0.agent_id && c.inflight
                == a.client->0.inflight
            &&& after.scrollback.len() == a.scrollback.len()
            &&& forall|i: int|
                0 <= i < a.scrollback.len() ==> (#[trigger] after.scrollback[i]).block
                    == a.scrollback[i].block
            &&& after.queue == a.queue
        }),
{
    reveal_strlit("");
}

}
