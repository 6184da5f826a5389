//! Dispatch for Cursor client/proxy mode (`/model-cursor`).

use vstd::prelude::*;

use crate::app_view;
use crate::app_view::{
    no_effects, one_effect, Action, ActiveView, AgentId, AgentState, AgentView, AppView, Effect,
    GrokModel, RenderBlock, TaskResult,
};
use crate::cursor_client;
use crate::cursor_client::{
    activate_on_agent, apply_progress, clear_cursor_client_on_agent, drain_queued_send,
    enqueue_or_send, finish_cursor_run, mark_fetch_started, prompt_is_command, reset_models_fetch,
    set_cached_models, CursorModelChoice, CursorProxyProgress,
};
use crate::session::InboxMode;
use crate::text;

verus! {

// -- Agents -----------------------------------------------------------------

/// The place of the first agent with that id, or the number of agents when there
/// is none.
pub open spec fn place_of(agents: Seq<AgentView>, id: AgentId) -> int
    decreases agents.len(),
{
    if agents.len() == 0 || agents[0].session.id == id {
        0
    } else {
        1 + place_of(agents.drop_first(), id)
    }
}

/// There is an agent with that id.
pub open spec fn has_agent(agents: Seq<AgentView>, id: AgentId) -> bool {
    place_of(agents, id) < agents.len()
}

/// The agent with that id.
pub open spec fn agent_of(agents: Seq<AgentView>, id: AgentId) -> app_view::AgentModel {
    agents[place_of(agents, id)]@
}

/// Every agent but the one at `i` is as it was.
pub open spec fn only_agent_at(before: Seq<AgentView>, after: Seq<AgentView>, i: int) -> bool {
    &&& after.len() == before.len()
    &&& forall|j: int| 0 <= j < before.len() && j != i ==> after[j] == before[j]
}

/// The first agent with that id became `a`, and the other agents are as they
/// were.
pub open spec fn agent_became(
    before: Seq<AgentView>,
    after: Seq<AgentView>,
    id: AgentId,
    a: app_view::AgentModel,
) -> bool {
    &&& has_agent(before, id)
    &&& only_agent_at(before, after, place_of(before, id))
    &&& after[place_of(before, id)]@ == a
}

/// The app is as it was but for its agents.
pub open spec fn only_agents(before: AppView, after: AppView) -> bool {
    &&& after.active_view == before.active_view
    &&& after.models == before.models
    &&& after.desk == before.desk
}

/// The app is as it was but for its agents and its peers.
pub open spec fn only_agents_and_desk(before: AppView, after: AppView) -> bool {
    &&& after.active_view == before.active_view
    &&& after.models == before.models
}

proof fn lemma_place_is_a_place(agents: Seq<AgentView>, id: AgentId)
    ensures
        0 <= place_of(agents, id) <= agents.len(),
    decreases agents.len(),
{
    if agents.len() > 0 && agents[0].session.id != id {
        lemma_place_is_a_place(agents.drop_first(), id);
    }
}

proof fn lemma_place(agents: Seq<AgentView>, id: AgentId, i: int)
    requires
        0 <= i <= agents.len(),
        forall|j: int| 0 <= j < i ==> (#[trigger] agents[j]).session.id != id,
        i < agents.len() ==> agents[i].session.id == id,
    ensures
        place_of(agents, id) == i,
    decreases agents.len(),
{
    if i > 0 {
        let rest = agents.drop_first();
        assert forall|j: int| 0 <= j < i - 1 implies (#[trigger] rest[j]).session.id != id by {
            assert(rest[j] == agents[j + 1]);
        }
        assert(agents[0].session.id != id);
        lemma_place(rest, id, i - 1);
    }
}

fn find_agent(agents: &Vec<AgentView>, id: AgentId) -> (r: Option<usize>)
    ensures
        match r {
            Some(i) => i == place_of(agents@, id) && i < agents@.len(),
            None => !has_agent(agents@, id),
        },
{
    let mut i: usize = 0;
    while i < agents.len()
        invariant
            i <= agents@.len(),
            forall|j: int| 0 <= j < i ==> (#[trigger] agents@[j]).session.id != id,
        decreases agents@.len() - i,
    {
        if agents[i].session.id == id {
            proof {
                lemma_place(agents@, id, i as int);
            }
            return Some(i);
        }
        i += 1;
    }
    proof {
        lemma_place(agents@, id, i as int);
    }
    None
}

/// The place of the first agent of that session, or the number of agents when
/// there is none.
pub open spec fn session_place(agents: Seq<AgentView>, session_id: Seq<char>) -> int
    decreases agents.len(),
{
    if agents.len() == 0 || agents[0]@.session_id == Some(session_id) {
        0
    } else {
        1 + session_place(agents.drop_first(), session_id)
    }
}

proof fn lemma_session_place(agents: Seq<AgentView>, session_id: Seq<char>, i: int)
    requires
        0 <= i <= agents.len(),
        forall|j: int| 0 <= j < i ==> (#[trigger] agents[j])@.session_id != Some(session_id),
        i < agents.len() ==> agents[i]@.session_id == Some(session_id),
    ensures
        session_place(agents, session_id) == i,
    decreases agents.len(),
{
    if i > 0 {
        let rest = agents.drop_first();
        assert forall|j: int| 0 <= j < i - 1 implies (#[trigger] rest[j])@.session_id != Some(
            session_id,
        ) by {
            assert(rest[j] == agents[j + 1]);
        }
        assert(agents[0]@.session_id != Some(session_id));
        lemma_session_place(rest, session_id, i - 1);
    }
}

fn find_agent_by_session_id(agents: &Vec<AgentView>, session_id: &str) -> (r: Option<usize>)
    ensures
        match r {
            Some(i) => i == session_place(agents@, session_id@) && i < agents@.len(),
            None => session_place(agents@, session_id@) == agents@.len(),
        },
{
    let mut i: usize = 0;
    while i < agents.len()
        invariant
            i <= agents@.len(),
            forall|j: int|
                0 <= j < i ==> (#[trigger] agents@[j])@.session_id != Some(session_id@),
        decreases agents@.len() - i,
    {
        let found: bool = match &agents[i].session.session_id {
            Some(id) => text::same_text(id.as_str(), session_id),
            None => false,
        };
        if found {
            proof {
                lemma_session_place(agents@, session_id@, i as int);
            }
            return Some(i);
        }
        assert(agents@[i as int]@.session_id != Some(session_id@));
        i += 1;
    }
    proof {
        lemma_session_place(agents@, session_id@, i as int);
    }
    None
}

// -- Models -----------------------------------------------------------------

/// The agent on screen, if there is one.
pub open spec fn active_agent(app: AppView) -> Option<AgentId> {
    match app.active_view {
        ActiveView::Agent(id) => if has_agent(app.agents@, id) {
            Some(id)
        } else {
            None
        },
        ActiveView::Home => None,
    }
}

/// Asking for the Cursor models turns `before` into `after` and yields `effects`:
/// they are fetched for the agent on screen unless they are there already.
pub open spec fn fetches_models(
    before: AppView,
    after: AppView,
    effects: Seq<app_view::EffectModel>,
) -> bool {
    &&& after.agents == before.agents
    &&& after.active_view == before.active_view
    &&& after.desk == before.desk
    &&& after.models.models == before.models.models
    &&& match active_agent(before) {
        None => after.models == before.models && effects.len() == 0,
        Some(id) => {
            &&& after.models.fetch_started
            &&& effects == if before.models.fetch_started && before.models.cached() is Some {
                Seq::empty()
            } else {
                seq![
                    app_view::EffectModel::FetchCursorModels {
                        agent_id: id,
                        cwd: agent_of(before.agents@, id).cwd,
                    },
                ]
            }
        },
    }
}

/// Fetch the Cursor models for the agent on screen.
pub fn dispatch_fetch_cursor_models(app: &mut AppView) -> (r: Vec<Effect>)
    ensures
        fetches_models(*old(app), *final(app), app_view::effects_in(r@)),
{
    let id = match app.active_view {
        ActiveView::Agent(id) => id,
        ActiveView::Home => return no_effects(),
    };
    let i = match find_agent(&app.agents, id) {
        Some(i) => i,
        None => return no_effects(),
    };
    let first: bool = mark_fetch_started(&mut app.models);
    if !first && app.models.models.is_some() {
        return no_effects();
    }
    one_effect(
        Effect::FetchCursorModels { agent_id: id, cwd: app.agents[i].session.cwd.clone() },
    )
}

/// The agent with one more notice.
pub open spec fn noticed(a: app_view::AgentModel, shown: Seq<char>) -> app_view::AgentModel {
    app_view::AgentModel { scrollback: a.scrollback.push(app_view::notice(shown)), ..a }
}

/// `after` is `before` with a notice on one agent, if it is there.
pub open spec fn notices_agent(
    before: AppView,
    after: AppView,
    id: AgentId,
    shown: Seq<char>,
) -> bool {
    if has_agent(before.agents@, id) {
        agent_became(
            before.agents@,
            after.agents@,
            id,
            noticed(agent_of(before.agents@, id), shown),
        )
    } else {
        after.agents@ == before.agents@
    }
}

fn notice_agent(agents: &mut Vec<AgentView>, id: AgentId, shown: String)
    ensures
        has_agent(old(agents)@, id) ==> agent_became(
            old(agents)@,
            final(agents)@,
            id,
            noticed(agent_of(old(agents)@, id), shown@),
        ),
        !has_agent(old(agents)@, id) ==> final(agents)@ == old(agents)@,
{
    match find_agent(agents, id) {
        Some(i) => {
            let agent = &mut agents[i];
            agent.scrollback.push_block(RenderBlock::System(shown));
        },
        None => {},
    }
}

/// The list of models came in, or the reason why not: it is cached, or may be
/// asked for again, and the agent is told.
pub fn handle_cursor_models_loaded(
    app: &mut AppView,
    agent_id: AgentId,
    result: Result<Vec<CursorModelChoice>, String>,
) -> (r: Vec<Effect>)
    ensures
        r@.len() == 0,
        final(app).active_view == old(app).active_view,
        final(app).desk == old(app).desk,
        match result {
            Ok(models) => {
                &&& final(app).models.cached() == Some(models@)
                &&& final(app).models.fetch_started
                &&& notices_agent(
                    *old(app),
                    *final(app),
                    agent_id,
                    "Cursor models loaded. Pick one with /model-cursor <name>."@,
                )
            },
            Err(e) => {
                &&& final(app).models.models == old(app).models.models
                &&& !final(app).models.fetch_started
                &&& notices_agent(
                    *old(app),
                    *final(app),
                    agent_id,
                    "Failed to list Cursor models: "@ + e@,
                )
            },
        },
{
    match result {
        Ok(models) => {
            set_cached_models(&mut app.models, models);
            notice_agent(
                &mut app.agents,
                agent_id,
                "Cursor models loaded. Pick one with /model-cursor <name>.".to_owned(),
            );
        },
        Err(e) => {
            reset_models_fetch(&mut app.models);
            notice_agent(
                &mut app.agents,
                agent_id,
                "Failed to list Cursor models: ".to_owned().concat(e.as_str()),
            );
        },
    }
    Vec::new()
}

// -- Entering and leaving ---------------------------------------------------

/// Picking a Cursor model turns `before` into `after` and yields `effects`: a
/// Cursor agent is to be created for the agent on screen; one without a session
/// is told to start one.
pub open spec fn activates(
    before: AppView,
    after: AppView,
    model_id: Seq<char>,
    display_name: Seq<char>,
    effects: Seq<app_view::EffectModel>,
) -> bool {
    match active_agent(before) {
        None => after == before && effects.len() == 0,
        Some(id) => {
            let a = agent_of(before.agents@, id);
            if a.session_id is None {
                &&& only_agents(before, after)
                &&& notices_agent(before, after, id, "Start a session before /model-cursor."@)
                &&& effects.len() == 0
            } else {
                &&& after == before
                &&& effects == seq![
                    app_view::EffectModel::CreateCursorAgent {
                        agent_id: id,
                        cwd: a.cwd,
                        model_id,
                        display_name,
                    },
                ]
            }
        },
    }
}

/// The user picked a Cursor model.
pub fn dispatch_activate_cursor_client(
    app: &mut AppView,
    model_id: String,
    display_name: String,
) -> (r: Vec<Effect>)
    ensures
        activates(
            *old(app),
            *final(app),
            model_id@,
            display_name@,
            app_view::effects_in(r@),
        ),
{
    let id = match app.active_view {
        ActiveView::Agent(id) => id,
        ActiveView::Home => return no_effects(),
    };
    let i = match find_agent(&app.agents, id) {
        Some(i) => i,
        None => return no_effects(),
    };
    if app.agents[i].session.session_id.is_none() {
        notice_agent(
            &mut app.agents,
            id,
            "Start a session before /model-cursor.".to_owned(),
        );
        return no_effects();
    }
    one_effect(
        Effect::CreateCursorAgent {
            agent_id: id,
            cwd: app.agents[i].session.cwd.clone(),
            model_id,
            display_name,
        },
    )
}

/// The outcome of creating a Cursor agent turns `before` into `after`.
pub open spec fn agent_created(
    before: AppView,
    after: AppView,
    agent_id: AgentId,
    model_id: Seq<char>,
    display_name: Seq<char>,
    result: Result<String, String>,
) -> bool {
    if !has_agent(before.agents@, agent_id) {
        after == before
    } else {
        let a = agent_of(before.agents@, agent_id);
        match result {
            Ok(cursor_agent_id) => {
                &&& only_agents_and_desk(before, after)
                &&& agent_became(
                    before.agents@,
                    after.agents@,
                    agent_id,
                    cursor_client::entered(a, model_id, display_name, cursor_agent_id@),
                )
                &&& cursor_client::switches_peers(
                    before.desk,
                    after.desk,
                    a.session_id,
                    InboxMode::CursorProxy,
                    Some("cursor:"@ + model_id),
                )
            },
            Err(e) => {
                &&& only_agents(before, after)
                &&& notices_agent(
                    before,
                    after,
                    agent_id,
                    "Failed to create Cursor agent: "@ + e@,
                )
            },
        }
    }
}

/// A Cursor agent was created, or was not.
pub fn handle_cursor_agent_created(
    app: &mut AppView,
    agent_id: AgentId,
    model_id: String,
    display_name: String,
    result: Result<String, String>,
) -> (r: Vec<Effect>)
    ensures
        r@.len() == 0,
        agent_created(*old(app), *final(app), agent_id, model_id@, display_name@, result),
{
    let i = match find_agent(&app.agents, agent_id) {
        Some(i) => i,
        None => return Vec::new(),
    };
    match result {
        Ok(cursor_agent_id) => {
            let agent = &mut app.agents[i];
            activate_on_agent(agent, &mut app.desk, model_id, display_name, cursor_agent_id);
        },
        Err(e) => {
            notice_agent(
                &mut app.agents,
                agent_id,
                "Failed to create Cursor agent: ".to_owned().concat(e.as_str()),
            );
        },
    }
    Vec::new()
}

/// Leaving client mode turns `before` into `after`.
pub open spec fn leaves(before: AppView, after: AppView, agent_id: AgentId) -> bool {
    if !has_agent(before.agents@, agent_id) {
        after == before
    } else {
        let a = agent_of(before.agents@, agent_id);
        &&& only_agents_and_desk(before, after)
        &&& agent_became(before.agents@, after.agents@, agent_id, cursor_client::left(a))
        &&& if a.client is Some {
            cursor_client::switches_peers(
                before.desk,
                after.desk,
                a.session_id,
                InboxMode::Interject,
                None,
            )
        } else {
            after.desk == before.desk
        }
    }
}

/// Leave Cursor client mode. Returns true if a session was active.
pub fn clear_cursor_client(app: &mut AppView, agent_id: AgentId) -> (r: bool)
    ensures
        leaves(*old(app), *final(app), agent_id),
        r == (has_agent(old(app).agents@, agent_id) && agent_of(
            old(app).agents@,
            agent_id,
        ).client is Some),
{
    match find_agent(&app.agents, agent_id) {
        Some(i) => {
            let agent = &mut app.agents[i];
            clear_cursor_client_on_agent(agent, &mut app.desk)
        },
        None => false,
    }
}

/// Shared exit used by `/model` so a Grok model switch leaves client mode.
pub fn leave_cursor_client_if_active(app: &mut AppView, agent_id: AgentId)
    ensures
        leaves(*old(app), *final(app), agent_id),
{
    let _left: bool = clear_cursor_client(app, agent_id);
}

// -- Prompts ----------------------------------------------------------------

/// What is shown for a message from a peer.
pub open spec fn inbound_display(prompt: Seq<char>, from_name: Option<Seq<char>>) -> Seq<char> {
    match from_name {
        Some(from) => if from.len() > 0 {
            "[from "@ + from + "]\n"@ + prompt
        } else {
            prompt
        },
        None => prompt,
    }
}

/// A message from a peer turns `before` into `after` and yields `effects`: the
/// session's client gets it as a prompt; without a client nothing happens.
pub open spec fn proxies_inbound(
    before: AppView,
    after: AppView,
    session_id: Seq<char>,
    prompt: Seq<char>,
    reply_to: Option<Seq<char>>,
    from_name: Option<Seq<char>>,
    effects: Seq<app_view::EffectModel>,
) -> bool {
    let i = session_place(before.agents@, session_id);
    &&& only_agents(before, after)
    &&& if i < before.agents@.len() && before.agents@[i]@.client is Some {
        &&& only_agent_at(before.agents@, after.agents@, i)
        &&& (after.agents@[i]@, effects) == cursor_client::prompted(
            before.agents@[i]@,
            before.desk.runtimes,
            prompt,
            reply_to,
            inbound_display(prompt, from_name),
        )
    } else {
        after.agents == before.agents && effects.len() == 0
    }
}

/// A peer sent a message to a session in Cursor client mode.
pub fn dispatch_cursor_proxy_inbound(
    app: &mut AppView,
    session_id: &str,
    prompt: String,
    reply_to: Option<String>,
    from_name: Option<String>,
) -> (r: Vec<Effect>)
    ensures
        proxies_inbound(
            *old(app),
            *final(app),
            session_id@,
            prompt@,
            text::opt_view(reply_to),
            text::opt_view(from_name),
            app_view::effects_in(r@),
        ),
{
    let i = match find_agent_by_session_id(&app.agents, session_id) {
        Some(i) => i,
        None => return no_effects(),
    };
    if app.agents[i].cursor_client.is_none() {
        return no_effects();
    }
    let display = match &from_name {
        Some(from) => if from.as_str().is_empty() {
            prompt.clone()
        } else {
            let mut shown = "[from ".to_owned();
            shown.append(from.as_str());
            shown.append("]\n");
            shown.append(prompt.as_str());
            shown
        },
        None => prompt.clone(),
    };
    let agent = &mut app.agents[i];
    enqueue_or_send(agent, &app.desk.runtimes, prompt, reply_to, Some(display))
}

/// The prompt is a slash command.
pub open spec fn is_slash(prompt: Seq<char>) -> bool {
    let line = text::trimmed_start(prompt);
    line.len() > 0 && line[0] == '/'
}

/// A Grok model answers to that name, by its id or its display name, whatever the
/// ASCII case.
pub open spec fn names_model(models: Seq<GrokModel>, wanted: Seq<char>) -> bool {
    exists|i: int|
        0 <= i < models.len() && (text::lower((#[trigger] models[i]).id@) == text::lower(wanted)
            || text::lower(models[i].name@) == text::lower(wanted))
}

/// What `/model` is given.
pub open spec fn model_argument(prompt: Seq<char>) -> Seq<char> {
    text::trimmed(text::trimmed_start(prompt).skip("/model"@.len() as int))
}

/// The command leaves client mode: a switch to a Grok model, a new session, the
/// home screen, or the end of the app.
pub open spec fn leaves_client(models: Seq<GrokModel>, prompt: Seq<char>) -> bool {
    ||| cursor_client::is_command(prompt, "/new"@)
    ||| cursor_client::is_command(prompt, "/clear"@)
    ||| cursor_client::is_command(prompt, "/home"@)
    ||| cursor_client::is_command(prompt, "/quit"@)
    ||| cursor_client::is_command(prompt, "/exit"@)
    ||| cursor_client::is_command(prompt, "/model"@) && names_model(models, model_argument(prompt))
}

fn offers_model(models: &Vec<GrokModel>, wanted: &str) -> (r: bool)
    ensures
        r == names_model(models@, wanted@),
{
    let mut i: usize = 0;
    while i < models.len()
        invariant
            i <= models@.len(),
            forall|j: int|
                0 <= j < i ==> text::lower((#[trigger] models@[j]).id@) != text::lower(wanted@)
                    && text::lower(models@[j].name@) != text::lower(wanted@),
        decreases models@.len() - i,
    {
        if text::eq_ignore_ascii_case(models[i].id.as_str(), wanted) || text::eq_ignore_ascii_case(
            models[i].name.as_str(),
            wanted,
        ) {
            return true;
        }
        i += 1;
    }
    false
}

/// True when the command leaves client mode.
pub fn command_leaves_client(models: &Vec<GrokModel>, prompt: &str) -> (r: bool)
    ensures
        r == leaves_client(models@, prompt@),
{
    if prompt_is_command(prompt, "/new") || prompt_is_command(prompt, "/clear")
        || prompt_is_command(prompt, "/home") || prompt_is_command(prompt, "/quit")
        || prompt_is_command(prompt, "/exit") {
        return true;
    }
    if !prompt_is_command(prompt, "/model") {
        return false;
    }
    let line = text::trim_start(prompt);
    match text::strip_prefix(line.as_str(), "/model") {
        Some(rest) => offers_model(models, text::trim(rest.as_str()).as_str()),
        None => false,
    }
}

/// A prompt turns `before` into `after` and yields `effects`: slash commands stay
/// local, and some of them leave client mode; anything else goes to Cursor in
/// client mode and to Grok otherwise.
pub open spec fn takes_prompt(
    before: AppView,
    after: AppView,
    prompt: Seq<char>,
    effects: Seq<app_view::EffectModel>,
) -> bool {
    match active_agent(before) {
        None => after == before && effects.len() == 0,
        Some(id) => {
            let a = agent_of(before.agents@, id);
            if is_slash(prompt) {
                &&& effects == seq![
                    app_view::EffectModel::RunSlashCommand { agent_id: id, text: prompt },
                ]
                &&& if leaves_client(a.models, prompt) {
                    leaves(before, after, id)
                } else {
                    after == before
                }
            } else if a.client is Some {
                &&& only_agents(before, after)
                &&& only_agent_at(before.agents@, after.agents@, place_of(before.agents@, id))
                &&& (after.agents@[place_of(before.agents@, id)]@, effects)
                    == cursor_client::prompted(a, before.desk.runtimes, prompt, None, prompt)
            } else {
                &&& after == before
                &&& effects == seq![
                    app_view::EffectModel::SendPrompt { agent_id: id, text: prompt },
                ]
            }
        },
    }
}

/// The user entered a prompt.
pub fn dispatch_send_prompt(app: &mut AppView, prompt: String) -> (r: Vec<Effect>)
    ensures
        takes_prompt(*old(app), *final(app), prompt@, app_view::effects_in(r@)),
{
    let id = match app.active_view {
        ActiveView::Agent(id) => id,
        ActiveView::Home => return no_effects(),
    };
    let i = match find_agent(&app.agents, id) {
        Some(i) => i,
        None => return no_effects(),
    };
    let line = text::chars_of(text::trim_start(prompt.as_str()).as_str());
    if line.len() > 0 && line[0] == '/' {
        if command_leaves_client(&app.agents[i].session.models, prompt.as_str()) {
            leave_cursor_client_if_active(app, id);
        }
        return one_effect(Effect::RunSlashCommand { agent_id: id, text: prompt });
    }
    if app.agents[i].cursor_client.is_some() {
        let agent = &mut app.agents[i];
        return enqueue_or_send(agent, &app.desk.runtimes, prompt, None, None);
    }
    one_effect(Effect::SendPrompt { agent_id: id, text: prompt })
}

// -- Runs -------------------------------------------------------------------

/// What is shown for the outcome of a run.
pub open spec fn run_block(result: Result<String, String>) -> app_view::EntryModel {
    app_view::EntryModel {
        block: match result {
            Ok(shown) => app_view::BlockModel::AgentMessage(
                if text::trimmed(shown@).len() == 0 {
                    "(Cursor finished with no text.)"@
                } else {
                    shown@
                },
            ),
            Err(e) => app_view::BlockModel::System("Cursor send failed: "@ + e@),
        },
        running: false,
    }
}

/// The agent after its run ended with `result`: the turn is over, and the outcome
/// is on screen. A reply that was streamed stands there already.
pub open spec fn with_outcome(
    a: app_view::AgentModel,
    result: Result<String, String>,
) -> app_view::AgentModel {
    let (ended, streamed) = cursor_client::finished(a);
    if streamed && result is Ok {
        ended
    } else {
        app_view::AgentModel { scrollback: ended.scrollback.push(run_block(result)), ..ended }
    }
}

/// The end of a send turns `before` into `after` and yields `effects`: the turn
/// ends, its outcome is shown, and the next waiting prompt is sent.
pub open spec fn completes_send(
    before: AppView,
    after: AppView,
    agent_id: AgentId,
    result: Result<String, String>,
    effects: Seq<app_view::EffectModel>,
) -> bool {
    &&& only_agents(before, after)
    &&& if has_agent(before.agents@, agent_id) {
        let i = place_of(before.agents@, agent_id);
        &&& only_agent_at(before.agents@, after.agents@, i)
        &&& (after.agents@[i]@, effects) == cursor_client::drained(
            with_outcome(before.agents@[i]@, result),
            before.desk.runtimes,
        )
    } else {
        after.agents == before.agents && effects.len() == 0
    }
}

/// A send of the agent can end: no prompts wait without a client.
pub open spec fn send_can_end(app: AppView, agent_id: AgentId) -> bool {
    has_agent(app.agents@, agent_id) ==> cursor_client::waits_for_client(
        agent_of(app.agents@, agent_id),
    )
}

/// A send to Cursor ended.
pub fn handle_cursor_proxy_send_complete(
    app: &mut AppView,
    agent_id: AgentId,
    result: Result<String, String>,
) -> (r: Vec<Effect>)
    requires
        send_can_end(*old(app), agent_id),
    ensures
        completes_send(*old(app), *final(app), agent_id, result, app_view::effects_in(r@)),
{
    let i = match find_agent(&app.agents, agent_id) {
        Some(i) => i,
        None => return no_effects(),
    };
    let failed: bool = result.is_err();
    let block = match result {
        Ok(shown) => if text::trim(shown.as_str()).as_str().is_empty() {
            RenderBlock::AgentMessage("(Cursor finished with no text.)".to_owned())
        } else {
            RenderBlock::AgentMessage(shown)
        },
        Err(e) => RenderBlock::System("Cursor send failed: ".to_owned().concat(e.as_str())),
    };
    let agent = &mut app.agents[i];
    let streamed = finish_cursor_run(agent);
    if failed || !streamed {
        agent.scrollback.push_block(block);
    }
    drain_queued_send(agent, &app.desk.runtimes)
}

/// A stream event turns `before` into `after`.
pub open spec fn shows_progress(
    before: AppView,
    after: AppView,
    agent_id: AgentId,
    event: CursorProxyProgress,
) -> bool {
    &&& only_agents(before, after)
    &&& if has_agent(before.agents@, agent_id) {
        agent_became(
            before.agents@,
            after.agents@,
            agent_id,
            cursor_client::progressed(agent_of(before.agents@, agent_id), event),
        )
    } else {
        after.agents == before.agents
    }
}

/// Cursor reported progress on a run.
pub fn handle_cursor_proxy_progress(
    app: &mut AppView,
    agent_id: AgentId,
    event: CursorProxyProgress,
) -> (r: Vec<Effect>)
    ensures
        r@.len() == 0,
        shows_progress(*old(app), *final(app), agent_id, event),
{
    match find_agent(&app.agents, agent_id) {
        Some(i) => {
            let agent = &mut app.agents[i];
            apply_progress(agent, event);
        },
        None => {},
    }
    Vec::new()
}

// -- Dispatch ---------------------------------------------------------------

/// An action turns `before` into `after` and yields `effects`.
pub open spec fn dispatches(
    before: AppView,
    action: Action,
    after: AppView,
    effects: Seq<app_view::EffectModel>,
) -> bool {
    match action {
        Action::SendPrompt(prompt) => takes_prompt(before, after, prompt@, effects),
        Action::FetchCursorModels => fetches_models(before, after, effects),
        Action::ActivateCursorClient { model_id, display_name } => activates(
            before,
            after,
            model_id@,
            display_name@,
            effects,
        ),
        Action::CursorProxyInbound { session_id, text, reply_to, from_name } => proxies_inbound(
            before,
            after,
            session_id@,
            text@,
            text::opt_view(reply_to),
            text::opt_view(from_name),
            effects,
        ),
        Action::TaskComplete(TaskResult::CursorModelsLoaded { agent_id, result }) => {
            &&& effects.len() == 0
            &&& after.active_view == before.active_view
            &&& after.desk == before.desk
            &&& match result {
                Ok(models) => after.models.cached() == Some(models@)
                    && after.models.fetch_started && notices_agent(
                    before,
                    after,
                    agent_id,
                    "Cursor models loaded. Pick one with /model-cursor <name>."@,
                ),
                Err(e) => after.models.models == before.models.models
                    && !after.models.fetch_started && notices_agent(
                    before,
                    after,
                    agent_id,
                    "Failed to list Cursor models: "@ + e@,
                ),
            }
        },
        Action::TaskComplete(
            TaskResult::CursorAgentCreated { agent_id, model_id, display_name, result },
        ) => effects.len() == 0 && agent_created(
            before,
            after,
            agent_id,
            model_id@,
            display_name@,
            result,
        ),
        Action::TaskComplete(TaskResult::CursorProxyProgress { agent_id, event }) => effects.len()
            == 0 && shows_progress(before, after, agent_id, event),
        Action::TaskComplete(TaskResult::CursorProxySendComplete { agent_id, result }) =>
        completes_send(before, after, agent_id, result, effects),
    }
}

/// An action can be carried out: if it ends a send, that send can end.
pub open spec fn can_dispatch(app: AppView, action: Action) -> bool {
    match action {
        Action::TaskComplete(TaskResult::CursorProxySendComplete { agent_id, .. }) => send_can_end(
            app,
            agent_id,
        ),
        _ => true,
    }
}

/// Carry out an action.
pub fn dispatch(action: Action, app: &mut AppView) -> (r: Vec<Effect>)
    requires
        can_dispatch(*old(app), action),
    ensures
        dispatches(*old(app), action, *final(app), app_view::effects_in(r@)),
{
    match action {
        Action::SendPrompt(prompt) => dispatch_send_prompt(app, prompt),
        Action::FetchCursorModels => dispatch_fetch_cursor_models(app),
        Action::ActivateCursorClient { model_id, display_name } => {
            dispatch_activate_cursor_client(app, model_id, display_name)
        },
        Action::CursorProxyInbound { session_id, text, reply_to, from_name } => {
            dispatch_cursor_proxy_inbound(app, session_id.as_str(), text, reply_to, from_name)
        },
        Action::TaskComplete(result) => match result {
            TaskResult::CursorModelsLoaded { agent_id, result } => handle_cursor_models_loaded(
                app,
                agent_id,
                result,
            ),
            TaskResult::CursorAgentCreated { agent_id, model_id, display_name, result } => {
                handle_cursor_agent_created(app, agent_id, model_id, display_name, result)
            },
            TaskResult::CursorProxyProgress { agent_id, event } => handle_cursor_proxy_progress(
                app,
                agent_id,
                event,
            ),
            TaskResult::CursorProxySendComplete { agent_id, result } => {
                handle_cursor_proxy_send_complete(app, agent_id, result)
            },
        },
    }
}

// -- Laws -------------------------------------------------------------------

/// In no agent do prompts wait without a run in flight.
pub open spec fn app_orderly(app: AppView) -> bool {
    forall|i: int|
        0 <= i < app.agents@.len() ==> cursor_client::orderly((#[trigger] app.agents@[i])@)
}

/// Whatever happens in the app, prompts wait only while a run is in flight, so
/// the next action can be carried out too.
pub proof fn dispatch_keeps_app_orderly(
    before: AppView,
    action: Action,
    after: AppView,
    effects: Seq<app_view::EffectModel>,
)
    requires
        app_orderly(before),
        dispatches(before, action, after, effects),
    ensures
        app_orderly(after),
        forall|next: Action| can_dispatch(after, next),
{
    assert forall|i: int| 0 <= i < after.agents@.len() implies cursor_client::orderly(
        (#[trigger] after.agents@[i])@,
    ) by {
        assert(cursor_client::orderly(before.agents@[i]@));
    }
    assert forall|next: Action| can_dispatch(after, next) by {
        match next {
            Action::TaskComplete(TaskResult::CursorProxySendComplete { agent_id, .. }) => {
                lemma_place_is_a_place(after.agents@, agent_id);
                if has_agent(after.agents@, agent_id) {
                    let i = place_of(after.agents@, agent_id);
                    assert(cursor_client::orderly(after.agents@[i]@));
                }
            },
            _ => {},
        }
    }
}

/// A send that ends ends the turn: nothing is in flight or under way after it,
/// unless another prompt waited, whose turn begins. The streamed reply is no
/// longer marked as running.
pub proof fn ended_sends_end_the_turn(
    before: AppView,
    after: AppView,
    agent_id: AgentId,
    result: Result<String, String>,
    effects: Seq<app_view::EffectModel>,
)
    requires
        completes_send(before, after, agent_id, result, effects),
        has_agent(before.agents@, agent_id),
    ensures
        ({
            let was = before.agents@[place_of(before.agents@, agent_id)]@;
            let now = after.agents@[place_of(before.agents@, agent_id)]@;
            &&& was.queue.len() == 0 ==> now.state == AgentState::Idle && effects.len() == 0
            &&& was.queue.len() > 0 ==> now.state == AgentState::TurnRunning && effects.len() == 1
            &&& now.client matches Some(c) ==> {
                &&& c.inflight == (was.queue.len() > 0)
                &&& was.queue.len() == 0 ==> c.activity is None
                &&& c.stream_entry is None
                &&& c.streamed_text.len() == 0
            }
            &&& was.client matches Some(c) ==> c.stream_entry matches Some(id) ==> id.0
                < was.scrollback.len() ==> !now.scrollback[id.0 as int].running
        }),
{
    lemma_place_is_a_place(before.agents@, agent_id);
    reveal_strlit("");
}

/// A streamed reply is shown once: when its send succeeds, nothing is added to
/// what stands on screen. Otherwise the outcome is added behind it.
pub proof fn streamed_replies_are_shown_once(
    before: AppView,
    after: AppView,
    agent_id: AgentId,
    result: Result<String, String>,
    effects: Seq<app_view::EffectModel>,
)
    requires
        completes_send(before, after, agent_id, result, effects),
        has_agent(before.agents@, agent_id),
    ensures
        ({
            let was = before.agents@[place_of(before.agents@, agent_id)]@;
            let now = after.agents@[place_of(before.agents@, agent_id)]@;
            let shown = was.client matches Some(c) && text::trimmed(c.streamed_text).len() > 0
                && result is Ok;
            &&& now.scrollback.len() == was.scrollback.len() + (if shown { 0int } else { 1 })
            &&& !shown ==> now.scrollback.last() == run_block(result)
            &&& forall|i: int|
                0 <= i < was.scrollback.len() ==> (#[trigger] now.scrollback[i]).block
                    == was.scrollback[i].block
        }),
{
    lemma_place_is_a_place(before.agents@, agent_id);
}

/// Slash commands stay local: none of them is ever sent to Cursor or to Grok.
pub proof fn slash_commands_stay_local(
    before: AppView,
    after: AppView,
    prompt: Seq<char>,
    effects: Seq<app_view::EffectModel>,
)
    requires
        takes_prompt(before, after, prompt, effects),
        is_slash(prompt),
    ensures
        forall|i: int|
            0 <= i < effects.len() ==> !((#[trigger] effects[i]) is CursorProxySend) && !(
            effects[i] is SendPrompt),
{
}

/// In client mode a plain prompt never goes to Grok; out of it, never to Cursor.
pub proof fn client_mode_decides_who_is_prompted(
    before: AppView,
    after: AppView,
    prompt: Seq<char>,
    effects: Seq<app_view::EffectModel>,
)
    requires
        takes_prompt(before, after, prompt, effects),
        !is_slash(prompt),
        active_agent(before) is Some,
    ensures
        agent_of(before.agents@, active_agent(before)->0).client is Some ==> forall|i: int|
            0 <= i < effects.len() ==> !((#[trigger] effects[i]) is SendPrompt),
        agent_of(before.agents@, active_agent(before)->0).client is None ==> forall|i: int|
            0 <= i < effects.len() ==> !((#[trigger] effects[i]) is CursorProxySend),
{
}

/// A message for a session that is no Cursor client is ignored.
pub proof fn inbound_is_ignored_without_client(
    before: AppView,
    after: AppView,
    session_id: Seq<char>,
    prompt: Seq<char>,
    reply_to: Option<Seq<char>>,
    from_name: Option<Seq<char>>,
    effects: Seq<app_view::EffectModel>,
)
    requires
        proxies_inbound(before, after, session_id, prompt, reply_to, from_name, effects),
        forall|i: int|
            0 <= i < before.agents@.len() ==> (#[trigger] before.agents@[i])@.client is None,
    ensures
        after == before,
        effects.len() == 0,
{
    lemma_session_place_bounds(before.agents@, session_id);
    let i = session_place(before.agents@, session_id);
    if i < before.agents@.len() {
        assert(before.agents@[i]@.client is None);
    }
}

/// A message from a peer is plain text: it never runs as a command and never
/// reaches Grok, and what goes to Cursor is the message as it came, with its reply
/// address.
pub proof fn inbound_text_is_literal(
    before: AppView,
    after: AppView,
    session_id: Seq<char>,
    prompt: Seq<char>,
    reply_to: Option<Seq<char>>,
    from_name: Option<Seq<char>>,
    effects: Seq<app_view::EffectModel>,
)
    requires
        proxies_inbound(before, after, session_id, prompt, reply_to, from_name, effects),
    ensures
        forall|i: int|
            0 <= i < effects.len() ==> ((#[trigger] effects[i]) matches
                app_view::EffectModel::CursorProxySend { text, reply_to: to, .. } && text == prompt
                && to == reply_to),
{
}

/// `/model` with a Grok model, `/new`, `/clear`, `/home`, `/quit` and `/exit` take
/// the agent on screen out of client mode, drop what waits, and ask for the deletion
/// of its Cursor agent.
pub proof fn leaving_commands_delete_the_cursor_agent(
    before: AppView,
    after: AppView,
    prompt: Seq<char>,
    effects: Seq<app_view::EffectModel>,
    id: AgentId,
)
    requires
        takes_prompt(before, after, prompt, effects),
        active_agent(before) == Some(id),
        agent_of(before.agents@, id).client is Some,
        leaves_client(agent_of(before.agents@, id).models, prompt),
    ensures
        ({
            let a = agent_of(before.agents@, id);
            let b = after.agents@[place_of(before.agents@, id)]@;
            &&& b.client is None
            &&& b.queue.len() == 0
            &&& b.pending == a.pending.push(
                app_view::EffectModel::DeleteCursorAgent {
                    agent_id: a.id,
                    cwd: a.cwd,
                    cursor_agent_id: a.client->0.agent_id,
                },
            )
        }),
{
    reveal_strlit("/new");
    reveal_strlit("/clear");
    reveal_strlit("/home");
    reveal_strlit("/quit");
    reveal_strlit("/exit");
    reveal_strlit("/model");
    assert("/new"@[0] == '/' && "/clear"@[0] == '/' && "/home"@[0] == '/');
    assert("/quit"@[0] == '/' && "/exit"@[0] == '/' && "/model"@[0] == '/');
    assert(is_slash(prompt));
}

proof fn lemma_session_place_bounds(agents: Seq<AgentView>, session_id: Seq<char>)
    ensures
        0 <= session_place(agents, session_id) <= agents.len(),
    decreases agents.len(),
{
    if agents.len() > 0 && agents[0]@.session_id != Some(session_id) {
        lemma_session_place_bounds(agents.drop_first(), session_id);
    }
}

/// An agent is found by its id, the first that bears it, wherever it stands; an id
/// that none bears is not found.
pub proof fn agents_are_found_by_id(agents: Seq<AgentView>, id: AgentId, i: int)
    requires
        0 <= i <= agents.len(),
        forall|j: int| 0 <= j < i ==> (#[trigger] agents[j])@.id != id,
        i < agents.len() ==> agents[i]@.id == id,
    ensures
        i < agents.len() ==> has_agent(agents, id) && agent_of(agents, id) == agents[i]@ && place_of(
            agents,
            id,
        ) == i,
        i == agents.len() ==> !has_agent(agents, id),
{
    assert forall|j: int| 0 <= j < i implies (#[trigger] agents[j]).session.id != id by {
        assert(agents[j]@.id != id);
    }
    lemma_place(agents, id, i);
}

/// A message from a peer reaches the agent of the session it is for, the first one
/// of that session, if that is a Cursor client: as a prompt with the message
/// itself, to be answered at the address it came with. No other agent notices.
pub proof fn inbound_reaches_its_session(
    before: AppView,
    after: AppView,
    session_id: Seq<char>,
    prompt: Seq<char>,
    reply_to: Option<Seq<char>>,
    from_name: Option<Seq<char>>,
    effects: Seq<app_view::EffectModel>,
    i: int,
)
    requires
        proxies_inbound(before, after, session_id, prompt, reply_to, from_name, effects),
        0 <= i < before.agents@.len(),
        before.agents@[i]@.session_id == Some(session_id),
        forall|j: int|
            0 <= j < i ==> (#[trigger] before.agents@[j])@.session_id != Some(session_id),
        before.agents@[i]@.client is Some,
    ensures
        after.agents@.len() == before.agents@.len(),
        forall|j: int|
            0 <= j < before.agents@.len() && j != i ==> after.agents@[j] == before.agents@[j],
        ({
            let was = before.agents@[i]@;
            let now = after.agents@[i]@;
            let shown = app_view::BlockModel::UserPrompt(inbound_display(prompt, from_name));
            &&& now.scrollback[was.scrollback.len() as int].block == shown
            &&& was.client->0.inflight ==> effects.len() == 0 && now.queue.len() == was.queue.len()
                + 1 && now.queue.last().text == prompt && now.queue.last().reply_to == reply_to
            &&& !was.client->0.inflight ==> effects.len() == 1 && (effects[0] matches
                app_view::EffectModel::CursorProxySend {
                text,
                reply_to: address,
                cursor_agent_id,
                ..
            } && text == prompt && address == reply_to && cursor_agent_id
                == was.client->0.agent_id)
        }),
{
    lemma_session_place(before.agents@, session_id, i);
}

/// A message from a peer is shown with the name of its sender, where there is one,
/// on a line of its own above it.
pub proof fn inbound_is_shown_with_its_sender(prompt: Seq<char>, from: Seq<char>)
    ensures
        prompt.is_suffix_of(inbound_display(prompt, Some(from))),
        from.len() > 0 ==> ("[from "@ + from + "]\n"@).is_prefix_of(
            inbound_display(prompt, Some(from)),
        ) && inbound_display(prompt, Some(from)).len() == ("[from "@ + from + "]\n"@).len()
            + prompt.len(),
        from.len() == 0 ==> inbound_display(prompt, Some(from)) == prompt,
        inbound_display(prompt, None) == prompt,
{
    let shown = inbound_display(prompt, Some(from));
    assert(shown.subrange(shown.len() - prompt.len(), shown.len() as int) =~= prompt);
    let head = "[from "@ + from + "]\n"@;
    if from.len() > 0 {
        assert(shown.subrange(0, head.len() as int) =~= head);
    }
}

/// A prompt is a slash command if and only if a slash is the first thing in it but
/// for white space.
pub proof fn slash_stands_first(left: Seq<char>, rest: Seq<char>)
    requires
        forall|i: int| 0 <= i < left.len() ==> text::white_space(#[trigger] left[i]),
        rest.len() > 0 ==> !text::white_space(rest[0]),
    ensures
        is_slash(left + rest) <==> rest.len() > 0 && rest[0] == '/',
{
    text::lemma_start_after_white_space(left, rest);
}

/// The commands for a new session, a cleared one, the home screen and the end of
/// the app leave client mode, with or without arguments.
pub proof fn session_commands_leave_client_mode(
    models: Seq<GrokModel>,
    left: Seq<char>,
    command: Seq<char>,
    rest: Seq<char>,
)
    requires
        forall|i: int| 0 <= i < left.len() ==> text::white_space(#[trigger] left[i]),
        command == "/new"@ || command == "/clear"@ || command == "/home"@ || command == "/quit"@
            || command == "/exit"@,
        rest.len() > 0 ==> text::white_space(rest[0]),
    ensures
        leaves_client(models, left + command + rest),
{
    reveal_strlit("/new");
    reveal_strlit("/clear");
    reveal_strlit("/home");
    reveal_strlit("/quit");
    reveal_strlit("/exit");
    assert(command[0] == '/');
    cursor_client::commands_end_at_white_space(left, command, rest);
}

/// A switch to a Grok model leaves client mode if and only if the model is one on
/// offer, by its id or its name, whatever the ASCII case and the white space
/// around it.
pub proof fn model_switch_leaves_client_mode(
    models: Seq<GrokModel>,
    left: Seq<char>,
    argument: Seq<char>,
)
    requires
        forall|i: int| 0 <= i < left.len() ==> text::white_space(#[trigger] left[i]),
        argument.len() > 0 ==> text::white_space(argument[0]),
    ensures
        leaves_client(models, left + "/model"@ + argument) <==> exists|i: int|
            {
                &&& 0 <= i < models.len()
                &&& text::lower((#[trigger] models[i]).id@) == text::lower(text::trimmed(argument))
                    || text::lower(models[i].name@) == text::lower(text::trimmed(argument))
            },
{
    reveal_strlit("/model");
    reveal_strlit("/new");
    reveal_strlit("/clear");
    reveal_strlit("/home");
    reveal_strlit("/quit");
    reveal_strlit("/exit");
    let prompt = left + "/model"@ + argument;
    cursor_client::commands_end_at_white_space(left, "/model"@, argument);
    text::lemma_start_after_white_space(left, "/model"@ + argument);
    assert(prompt =~= left + ("/model"@ + argument));
    let line = text::trimmed_start(prompt);
    assert(line == "/model"@ + argument);
    assert(line.skip("/model"@.len() as int) =~= argument);
    assert(line[1] == 'm');
    lemma_no_command(prompt, "/new"@);
    lemma_no_command(prompt, "/clear"@);
    lemma_no_command(prompt, "/home"@);
    lemma_no_command(prompt, "/quit"@);
    lemma_no_command(prompt, "/exit"@);
}

proof fn lemma_no_command(prompt: Seq<char>, command: Seq<char>)
    requires
        command.len() > 1,
        text::trimmed_start(prompt).len() > 1,
        text::trimmed_start(prompt)[1] != command[1],
    ensures
        !cursor_client::is_command(prompt, command),
{
    let line = text::trimmed_start(prompt);
    if command.is_prefix_of(line) {
        assert(line.subrange(0, command.len() as int)[1] == command[1]);
    }
}

/// No other command leaves client mode.
pub proof fn other_commands_stay_in_client_mode(models: Seq<GrokModel>, prompt: Seq<char>)
    requires
        leaves_client(models, prompt),
    ensures
        exists|left: Seq<char>, command: Seq<char>, rest: Seq<char>|
            {
                &&& prompt == #[trigger] (left + command + rest)
                &&& forall|i: int| 0 <= i < left.len() ==> text::white_space(#[trigger] left[i])
                &&& command == "/new"@ || command == "/clear"@ || command == "/home"@ || command
                    == "/quit"@ || command == "/exit"@ || command == "/model"@
            },
{
    let command = if cursor_client::is_command(prompt, "/new"@) {
        "/new"@
    } else if cursor_client::is_command(prompt, "/clear"@) {
        "/clear"@
    } else if cursor_client::is_command(prompt, "/home"@) {
        "/home"@
    } else if cursor_client::is_command(prompt, "/quit"@) {
        "/quit"@
    } else if cursor_client::is_command(prompt, "/exit"@) {
        "/exit"@
    } else {
        "/model"@
    };
    cursor_client::commands_stand_first(prompt, command);
    let (left, rest) = choose|left: Seq<char>, rest: Seq<char>|
        {
            &&& prompt == #[trigger] (left + command + rest)
            &&& forall|i: int| 0 <= i < left.len() ==> text::white_space(#[trigger] left[i])
        };
    assert(prompt == left + command + rest);
}

/// What the user enters goes to the agent on screen: a slash command as it stands
/// to be run, a prompt as it stands to Grok where the agent is no Cursor client.
/// Neither changes anything else, but for a command that leaves client mode.
pub proof fn prompts_go_to_the_agent_on_screen(
    before: AppView,
    after: AppView,
    prompt: Seq<char>,
    effects: Seq<app_view::EffectModel>,
    id: AgentId,
    i: int,
)
    requires
        takes_prompt(before, after, prompt, effects),
        before.active_view == ActiveView::Agent(id),
        0 <= i < before.agents@.len(),
        before.agents@[i]@.id == id,
        forall|j: int| 0 <= j < i ==> (#[trigger] before.agents@[j])@.id != id,
    ensures
        is_slash(prompt) ==> effects == seq![
            app_view::EffectModel::RunSlashCommand { agent_id: id, text: prompt },
        ],
        !is_slash(prompt) && before.agents@[i]@.client is None ==> effects == seq![
            app_view::EffectModel::SendPrompt { agent_id: id, text: prompt },
        ] && after == before,
        is_slash(prompt) && !leaves_client(before.agents@[i]@.models, prompt) ==> after == before,
        is_slash(prompt) && leaves_client(before.agents@[i]@.models, prompt) ==> after.agents@[i]@.client is None,
        !is_slash(prompt) && (before.agents@[i]@.client matches Some(c) && !c.inflight)
            ==> effects.len() == 1 && (effects[0] matches app_view::EffectModel::CursorProxySend {
            text,
            reply_to,
            agent_id,
            ..
        } && text == prompt && reply_to is None && agent_id == id),
{
    agents_are_found_by_id(before.agents@, id, i);
}

/// Without an agent on screen nothing happens, whatever is entered or picked.
pub proof fn nothing_happens_without_an_agent(
    before: AppView,
    after: AppView,
    prompt: Seq<char>,
    model_id: Seq<char>,
    display_name: Seq<char>,
    effects: Seq<app_view::EffectModel>,
)
    requires
        before.active_view is Home || (before.active_view matches ActiveView::Agent(id) && forall|
            j: int,
        | 0 <= j < before.agents@.len() ==> (#[trigger] before.agents@[j])@.id != id),
    ensures
        takes_prompt(before, after, prompt, effects) ==> after == before && effects.len() == 0,
        activates(before, after, model_id, display_name, effects) ==> after == before
            && effects.len() == 0,
        fetches_models(before, after, effects) ==> after.models == before.models && effects.len() == 0,
{
    match before.active_view {
        ActiveView::Agent(id) => {
            agents_are_found_by_id(before.agents@, id, before.agents@.len() as int);
        },
        ActiveView::Home => {},
    }
}

/// Picking a Cursor model asks for a Cursor agent of that model, for the agent on
/// screen and in its directory; without a session the user is told instead.
pub proof fn picked_model_is_asked_for(
    before: AppView,
    after: AppView,
    model_id: Seq<char>,
    display_name: Seq<char>,
    effects: Seq<app_view::EffectModel>,
    id: AgentId,
    i: int,
)
    requires
        activates(before, after, model_id, display_name, effects),
        before.active_view == ActiveView::Agent(id),
        0 <= i < before.agents@.len(),
        before.agents@[i]@.id == id,
        forall|j: int| 0 <= j < i ==> (#[trigger] before.agents@[j])@.id != id,
    ensures
        before.agents@[i]@.session_id is Some ==> after == before && effects == seq![
            app_view::EffectModel::CreateCursorAgent {
                agent_id: id,
                cwd: before.agents@[i]@.cwd,
                model_id,
                display_name,
            },
        ],
        before.agents@[i]@.session_id is None ==> effects.len() == 0
            && after.agents@[i]@.scrollback.len() == before.agents@[i]@.scrollback.len() + 1
            && after.agents@[i]@.scrollback.last().block is System && after.agents@[i]@.client
            == before.agents@[i]@.client,
{
    agents_are_found_by_id(before.agents@, id, i);
}

/// The Cursor models are asked for unless they are cached and no fetch is owed; the
/// request is for the agent on screen and its directory.
pub proof fn models_are_fetched_when_missing(
    before: AppView,
    after: AppView,
    effects: Seq<app_view::EffectModel>,
    id: AgentId,
    i: int,
)
    requires
        fetches_models(before, after, effects),
        before.active_view == ActiveView::Agent(id),
        0 <= i < before.agents@.len(),
        before.agents@[i]@.id == id,
        forall|j: int| 0 <= j < i ==> (#[trigger] before.agents@[j])@.id != id,
    ensures
        before.models.models is None || !before.models.fetch_started ==> effects == seq![
            app_view::EffectModel::FetchCursorModels {
                agent_id: id,
                cwd: before.agents@[i]@.cwd,
            },
        ],
        before.models.models is Some && before.models.fetch_started ==> effects.len() == 0,
        after.models.fetch_started,
        after.models.models == before.models.models,
        after.agents == before.agents,
{
    agents_are_found_by_id(before.agents@, id, i);
}

/// A Cursor agent that was created makes a client of the agent it was created for,
/// and peers of its session get through to Cursor; one that was not leaves the
/// agent as it was, but for a notice with the reason.
pub proof fn created_agent_is_bound(
    before: AppView,
    after: AppView,
    agent_id: AgentId,
    model_id: Seq<char>,
    display_name: Seq<char>,
    result: Result<String, String>,
    i: int,
)
    requires
        agent_created(before, after, agent_id, model_id, display_name, result),
        0 <= i < before.agents@.len(),
        before.agents@[i]@.id == agent_id,
        forall|j: int| 0 <= j < i ==> (#[trigger] before.agents@[j])@.id != agent_id,
    ensures
        after.agents@.len() == before.agents@.len(),
        forall|j: int|
            0 <= j < before.agents@.len() && j != i ==> after.agents@[j] == before.agents@[j],
        result matches Ok(cursor_agent) ==> {
            &&& after.agents@[i]@.client matches Some(c) && c.agent_id == cursor_agent@
                && c.model_id == model_id && c.display_name == display_name && !c.inflight
            &&& before.agents@[i]@.session_id matches Some(id)
                ==> before.desk.runtimes.info(id) matches Some(info)
                ==> after.desk.runtimes.info(id) matches Some(now) && now.mode
                == InboxMode::CursorProxy && now.name == info.name
        },
        result matches Err(e) ==> {
            &&& after.agents@[i]@.client == before.agents@[i]@.client
            &&& after.desk == before.desk
            &&& after.agents@[i]@.scrollback.last().block matches app_view::BlockModel::System(s)
                && e@.is_suffix_of(s)
        },
{
    agents_are_found_by_id(before.agents@, agent_id, i);
    match result {
        Err(e) => {
            let s = "Failed to create Cursor agent: "@ + e@;
            assert(s.subrange(s.len() - e@.len(), s.len() as int) =~= e@);
        },
        Ok(_) => {},
    }
}

/// What is shown for the outcome of a run is its text, a fixed notice where that is
/// blank, or the reason why it failed.
pub proof fn outcome_is_shown(result: Result<String, String>)
    ensures
        !run_block(result).running,
        result matches Ok(out) ==> text::trimmed(out@).len() > 0 ==> run_block(result).block
            == app_view::BlockModel::AgentMessage(out@),
        result matches Ok(out) ==> text::trimmed(out@).len() == 0 ==> run_block(result).block
            == app_view::BlockModel::AgentMessage("(Cursor finished with no text.)"@),
        result matches Err(e) ==> (run_block(result).block matches app_view::BlockModel::System(s)
            && e@.is_suffix_of(s)),
{
    match result {
        Err(e) => {
            let s = "Cursor send failed: "@ + e@;
            assert(s.subrange(s.len() - e@.len(), s.len() as int) =~= e@);
        },
        Ok(_) => {},
    }
}

/// No action changes what is on screen, adds or removes an agent, or touches an
/// agent's id, directory, session or Grok models. The Cursor models change only when
/// they are asked for or loaded, and the peers only on a command or a new Cursor
/// agent.
pub proof fn dispatch_keeps_the_rest(
    before: AppView,
    action: Action,
    after: AppView,
    effects: Seq<app_view::EffectModel>,
)
    requires
        dispatches(before, action, after, effects),
    ensures
        after.active_view == before.active_view,
        after.agents@.len() == before.agents@.len(),
        forall|i: int|
            0 <= i < before.agents@.len() ==> {
                let was = before.agents@[i]@;
                let now = (#[trigger] after.agents@[i])@;
                &&& now.id == was.id
                &&& now.cwd == was.cwd
                &&& now.session_id == was.session_id
                &&& now.models == was.models
            },
        !(action is FetchCursorModels) && !(action matches Action::TaskComplete(
            TaskResult::CursorModelsLoaded { .. },
        )) ==> after.models == before.models,
        !(action is SendPrompt) && !(action matches Action::TaskComplete(
            TaskResult::CursorAgentCreated { .. },
        )) ==> after.desk == before.desk,
{
    match action {
        Action::SendPrompt(_) => {
            if active_agent(before) is Some {
                lemma_place_is_a_place(before.agents@, active_agent(before)->0);
            }
        },
        Action::CursorProxyInbound { session_id, .. } => {
            lemma_session_place_bounds(before.agents@, session_id@);
        },
        Action::TaskComplete(TaskResult::CursorProxySendComplete { agent_id, .. }) => {
            lemma_place_is_a_place(before.agents@, agent_id);
        },
        _ => {},
    }
}

/// The Cursor models that were loaded are cached, in place of those that were there,
/// and the agent that asked for them is told so; if they could not be loaded, the
/// old ones stay, they may be asked for again, and the agent is told why. Nothing is
/// to be done.
pub proof fn loaded_models_are_cached(
    before: AppView,
    after: AppView,
    effects: Seq<app_view::EffectModel>,
    agent_id: AgentId,
    result: Result<Vec<CursorModelChoice>, String>,
    i: int,
)
    requires
        dispatches(
            before,
            Action::TaskComplete(TaskResult::CursorModelsLoaded { agent_id, result }),
            after,
            effects,
        ),
        0 <= i < before.agents@.len(),
        before.agents@[i]@.id == agent_id,
        forall|j: int| 0 <= j < i ==> (#[trigger] before.agents@[j])@.id != agent_id,
    ensures
        effects.len() == 0,
        result matches Ok(models) ==> (after.models.models matches Some(cached) && cached@
            == models@) && after.models.fetch_started,
        result matches Err(e) ==> after.models.models == before.models.models
            && !after.models.fetch_started && (after.agents@[i]@.scrollback.last().block matches
            app_view::BlockModel::System(s) && e@.is_suffix_of(s)),
        after.agents@[i]@.scrollback.len() == before.agents@[i]@.scrollback.len() + 1,
        after.agents@[i]@.scrollback.last().block is System,
        after.agents@[i]@.client == before.agents@[i]@.client,
        forall|j: int|
            0 <= j < before.agents@.len() && j != i ==> after.agents@[j] == before.agents@[j],
{
    agents_are_found_by_id(before.agents@, agent_id, i);
    match result {
        Err(e) => {
            let s = "Failed to list Cursor models: "@ + e@;
            assert(s.subrange(s.len() - e@.len(), s.len() as int) =~= e@);
        },
        Ok(_) => {},
    }
}

/// Progress on a run reaches the agent whose run it is, the first that bears the id,
/// and no other; nothing is to be done.
pub proof fn progress_reaches_its_agent(
    before: AppView,
    after: AppView,
    effects: Seq<app_view::EffectModel>,
    agent_id: AgentId,
    event: CursorProxyProgress,
    i: int,
)
    requires
        dispatches(
            before,
            Action::TaskComplete(TaskResult::CursorProxyProgress { agent_id, event }),
            after,
            effects,
        ),
        0 <= i < before.agents@.len(),
        before.agents@[i]@.id == agent_id,
        forall|j: int| 0 <= j < i ==> (#[trigger] before.agents@[j])@.id != agent_id,
    ensures
        effects.len() == 0,
        after.agents@[i]@ == cursor_client::progressed(before.agents@[i]@, event),
        forall|j: int|
            0 <= j < before.agents@.len() && j != i ==> after.agents@[j] == before.agents@[j],
{
    agents_are_found_by_id(before.agents@, agent_id, i);
}

/// The end of a send reaches the agent whose send it was, the first that bears the
/// id, and no other. The prompt that has waited longest goes out next, as it was
/// entered and with its reply address; the others keep waiting.
pub proof fn ended_send_reaches_its_agent(
    before: AppView,
    after: AppView,
    effects: Seq<app_view::EffectModel>,
    agent_id: AgentId,
    result: Result<String, String>,
    i: int,
)
    requires
        dispatches(
            before,
            Action::TaskComplete(TaskResult::CursorProxySendComplete { agent_id, result }),
            after,
            effects,
        ),
        0 <= i < before.agents@.len(),
        before.agents@[i]@.id == agent_id,
        forall|j: int| 0 <= j < i ==> (#[trigger] before.agents@[j])@.id != agent_id,
        before.agents@[i]@.client is Some,
    ensures
        forall|j: int|
            0 <= j < before.agents@.len() && j != i ==> after.agents@[j] == before.agents@[j],
        before.agents@[i]@.queue.len() == 0 ==> effects.len() == 0
            && after.agents@[i]@.queue.len() == 0,
        before.agents@[i]@.queue.len() > 0 ==> {
            &&& effects.len() == 1
            &&& effects[0] matches app_view::EffectModel::CursorProxySend { text, reply_to, .. }
                && text == before.agents@[i]@.queue[0].text && reply_to
                == before.agents@[i]@.queue[0].reply_to
            &&& after.agents@[i]@.queue == before.agents@[i]@.queue.drop_first()
        },
{
    agents_are_found_by_id(before.agents@, agent_id, i);
}

}
