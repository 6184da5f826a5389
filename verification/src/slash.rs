//! The slash commands `/model-cursor` and `/peers`.

use vstd::prelude::*;

use crate::app_view::Action;
use crate::cursor_client;
use crate::cursor_client::{display_or_id, resolve_model_arg, CursorModelChoice, ModelCache};
use crate::naming;
use crate::naming::short_id;
use crate::registry::PeerRecord;
use crate::text;

verus! {

/// What a slash command does.
#[derive(Debug)]
pub enum CommandResult {
    /// Carry out an action.
    Action(Action),
    /// Show a message.
    Message(String),
    /// Show an error.
    Error(String),
}

/// A suggestion for the argument of a command.
#[derive(Debug)]
pub struct ArgItem {
    pub display: String,
    pub match_text: String,
    pub insert_text: String,
    pub description: String,
}

// -- /model-cursor ----------------------------------------------------------

/// Switch this session into a Cursor client bound to a Cursor model.
pub struct ModelCursorCommand;

/// `item` suggests a model.
pub open spec fn suggests(item: ArgItem, m: CursorModelChoice) -> bool {
    &&& item.display@ == cursor_client::shown_name(m)
    &&& item.match_text@ == m.id@ + " "@ + cursor_client::shown_name(m)
    &&& item.insert_text@ == m.id@
    &&& item.description@ == if m.description@.len() == 0 {
        m.id@
    } else {
        m.description@
    }
}

fn arg_item(model: &CursorModelChoice) -> (r: ArgItem)
    ensures
        suggests(r, *model),
{
    let display = display_or_id(model);
    let mut match_text = model.id.clone();
    match_text.append(" ");
    match_text.append(display.as_str());
    ArgItem {
        display,
        match_text,
        insert_text: model.id.clone(),
        description: if model.description.as_str().is_empty() {
            model.id.clone()
        } else {
            model.description.clone()
        },
    }
}

impl ModelCursorCommand {
    /// The name of the command.
    pub fn name(&self) -> (r: &'static str)
        ensures
            r@ == "model-cursor"@,
    {
        "model-cursor"
    }

    /// Other names of the command.
    pub fn aliases(&self) -> (r: Vec<&'static str>)
        ensures
            r@.len() == 1 && r@[0]@ == "cursor-model"@,
    {
        let mut names: Vec<&'static str> = Vec::new();
        names.push("cursor-model");
        names
    }

    /// What the command is for.
    pub fn description(&self) -> (r: &'static str)
        ensures
            r@ == "Use a Cursor model as a client (proxy)"@,
    {
        "Use a Cursor model as a client (proxy)"
    }

    /// The command is about the current session.
    pub fn session_scoped(&self) -> (r: bool)
        ensures
            r,
    {
        true
    }

    /// The command is not offered where there is no session.
    pub fn offered_when_session_less(&self) -> (r: bool)
        ensures
            !r,
    {
        false
    }

    /// How to write the command.
    pub fn usage(&self) -> (r: &'static str)
        ensures
            r@ == "/model-cursor <name>"@,
    {
        "/model-cursor <name>"
    }

    /// The command takes an argument.
    pub fn takes_args(&self) -> (r: bool)
        ensures
            r,
    {
        true
    }

    /// The command needs its argument.
    pub fn args_required(&self) -> (r: bool)
        ensures
            r,
    {
        true
    }

    /// What stands in place of the argument.
    pub fn arg_placeholder(&self) -> (r: Option<&'static str>)
        ensures
            r is Some && r->0@ == "<cursor-model>"@,
    {
        Some("<cursor-model>")
    }

    /// The cached models, each as a suggestion, whatever was typed; none without
    /// any.
    pub fn suggest_args(&self, cache: &ModelCache, _args_query: &str) -> (r: Option<Vec<ArgItem>>)
        ensures
            match cache.cached() {
                Some(models) => if models.len() == 0 {
                    r is None
                } else {
                    r is Some && r->0@.len() == models.len() && forall|i: int|
                        0 <= i < models.len() ==> suggests(#[trigger] r->0@[i], models[i])
                },
                None => r is None,
            },
    {
        let models = match &cache.models {
            Some(models) => models,
            None => return None,
        };
        if models.len() == 0 {
            return None;
        }
        let mut items: Vec<ArgItem> = Vec::new();
        let mut i: usize = 0;
        while i < models.len()
            invariant
                i <= models@.len(),
                items@.len() == i,
                forall|j: int| 0 <= j < i ==> suggests(#[trigger] items@[j], models@[j]),
            decreases models@.len() - i,
        {
            items.push(arg_item(&models[i]));
            i += 1;
        }
        Some(items)
    }

    /// Enter client mode with the model that the argument stands for.
    pub fn run(&self, cache: &ModelCache, args: &str) -> (r: CommandResult)
        ensures
            match cursor_client::model_for(cache.cached(), args@) {
                Some((id, shown)) => r matches CommandResult::Action(
                    Action::ActivateCursorClient { model_id, display_name },
                ) && model_id@ == id && display_name@ == shown,
                None => r matches CommandResult::Error(m) && m@ == "Usage: /model-cursor <name>"@,
            },
    {
        match resolve_model_arg(cache, args) {
            Some((model_id, display_name)) => CommandResult::Action(
                Action::ActivateCursorClient { model_id, display_name },
            ),
            None => CommandResult::Error("Usage: /model-cursor <name>".to_owned()),
        }
    }
}

// -- /peers -----------------------------------------------------------------

/// List other live Grok sessions reachable for cross-session messaging.
pub struct PeersCommand;

/// What is shown when nobody is there.
pub const NO_PEERS: &'static str =
    "No live peer sessions on this machine.\nStart another `grok --name <name>` in a second terminal to message it.";

/// How a peer is addressed.
pub const PEERS_HINT: &'static str =
    "Ask Grok to message a peer by name, e.g. \"tell api the migration finished\".";

/// How many characters of a session id are shown.
pub const SHORT_ID_LEN: usize = 8;

/// The lines of one peer: its name, marked if it is the session itself, its
/// working directory, the end of its session id, and its note if it has one.
pub open spec fn peer_lines(p: PeerRecord, self_id: Option<Seq<char>>) -> Seq<char> {
    let head = "  • "@ + p.name@ + (if self_id == Some(p.session_id@) {
        " (this session)"@
    } else {
        ""@
    }) + "\n    cwd: "@ + p.cwd@ + "\n    id: …"@ + naming::at_end(
        naming::compact_id(p.session_id@),
        SHORT_ID_LEN as int,
    );
    match p.note {
        Some(note) => head + "\n    note: "@ + note@,
        None => head,
    }
}

/// The lines of some peers, each group behind a line feed.
pub open spec fn all_peer_lines(peers: Seq<PeerRecord>, self_id: Option<Seq<char>>) -> Seq<char>
    decreases peers.len(),
{
    if peers.len() == 0 {
        Seq::empty()
    } else {
        all_peer_lines(peers.drop_last(), self_id) + "\n"@ + peer_lines(peers.last(), self_id)
    }
}

/// The whole listing.
pub open spec fn listing(peers: Seq<PeerRecord>, self_id: Option<Seq<char>>) -> Seq<char> {
    if peers.len() == 0 {
        NO_PEERS@
    } else {
        "Live peer sessions:"@ + all_peer_lines(peers, self_id) + "\n\n"@ + PEERS_HINT@
    }
}

fn show_peer(p: &PeerRecord, self_id: Option<&str>) -> (r: String)
    ensures
        r@ == peer_lines(*p, text::opt_str(self_id)),
{
    let is_self: bool = match self_id {
        Some(id) => text::same_text(id, p.session_id.as_str()),
        None => false,
    };
    let mut out = "  • ".to_owned();
    out.append(p.name.as_str());
    out.append(
        if is_self {
            " (this session)"
        } else {
            ""
        },
    );
    out.append("\n    cwd: ");
    out.append(p.cwd.as_str());
    out.append("\n    id: …");
    out.append(short_id(p.session_id.as_str(), SHORT_ID_LEN).as_str());
    match &p.note {
        Some(note) => {
            out.append("\n    note: ");
            out.append(note.as_str());
        },
        None => {},
    }
    out
}

fn show_peers(peers: &Vec<PeerRecord>, self_id: Option<&str>) -> (r: String)
    ensures
        r@ == listing(peers@, text::opt_str(self_id)),
{
    if peers.len() == 0 {
        return NO_PEERS.to_owned();
    }
    let mut out = "Live peer sessions:".to_owned();
    let ghost head = out@;
    let mut i: usize = 0;
    assert(head + Seq::<char>::empty() =~= head);
    while i < peers.len()
        invariant
            i <= peers@.len(),
            out@ == head + all_peer_lines(peers@.take(i as int), text::opt_str(self_id)),
        decreases peers@.len() - i,
    {
        let ghost before = all_peer_lines(peers@.take(i as int), text::opt_str(self_id));
        proof {
            assert(peers@.take(i + 1).drop_last() =~= peers@.take(i as int));
            assert(peers@.take(i + 1).last() == peers@[i as int]);
        }
        let lines = show_peer(&peers[i], self_id);
        out.append("\n");
        out.append(lines.as_str());
        assert(head + before + "\n"@ + lines@ =~= head + (before + "\n"@ + lines@));
        i += 1;
    }
    assert(peers@.take(peers@.len() as int) =~= peers@);
    out.append("\n\n");
    out.append(PEERS_HINT);
    out
}

impl PeersCommand {
    /// The name of the command.
    pub fn name(&self) -> (r: &'static str)
        ensures
            r@ == "peers"@,
    {
        "peers"
    }

    /// Other names of the command.
    pub fn aliases(&self) -> (r: Vec<&'static str>)
        ensures
            r@.len() == 2 && r@[0]@ == "list-agents"@ && r@[1]@ == "list_agents"@,
    {
        let mut names: Vec<&'static str> = Vec::new();
        names.push("list-agents");
        names.push("list_agents");
        names
    }

    /// What the command is for.
    pub fn description(&self) -> (r: &'static str)
        ensures
            r@ == "List live sessions you can message"@,
    {
        "List live sessions you can message"
    }

    /// The command is not about the current session.
    pub fn session_scoped(&self) -> (r: bool)
        ensures
            !r,
    {
        false
    }

    /// How to write the command.
    pub fn usage(&self) -> (r: &'static str)
        ensures
            r@ == "/peers"@,
    {
        "/peers"
    }

    /// List the live sessions.
    pub fn run<L: FnOnce() -> Result<Vec<PeerRecord>, String>>(
        &self,
        self_id: Option<&str>,
        list_live: L,
    ) -> (r: CommandResult)
        requires
            list_live.requires(()),
        ensures
            exists|live: Result<Vec<PeerRecord>, String>| #[trigger]
                list_live.ensures((), live) && match live {
                    Ok(peers) => r matches CommandResult::Message(m) && m@ == listing(
                        peers@,
                        text::opt_str(self_id),
                    ),
                    Err(e) => r matches CommandResult::Error(m) && m@ == "Failed to list peers: "@
                        + e@,
                },
    {
        let live = list_live();
        let ghost l = live;
        assert(list_live.ensures((), l));
        match live {
            Ok(peers) => CommandResult::Message(show_peers(&peers, self_id)),
            Err(e) => CommandResult::Error(
                "Failed to list peers: ".to_owned().concat(e.as_str()),
            ),
        }
    }
}

// -- Laws -------------------------------------------------------------------

/// A suggested model is inserted by its id, shown under its display name or its id
/// where that is blank, found by either, and described by its description or its id
/// where it has none.
pub proof fn suggestions_insert_the_id(item: ArgItem, m: CursorModelChoice)
    requires
        suggests(item, m),
    ensures
        item.insert_text@ == m.id@,
        cursor_client::is_shown_as(m, item.display@),
        m.id@.is_prefix_of(item.match_text@),
        text::has_text(item.match_text@, item.display@),
        m.description@.len() > 0 ==> item.description@ == m.description@,
        m.description@.len() == 0 ==> item.description@ == m.id@,
{
    let none = Seq::<char>::empty();
    text::lemma_text_between(m.id@ + " "@, item.display@, none);
    assert(m.id@ + " "@ + item.display@ + none =~= item.match_text@);
    assert(item.match_text@.subrange(0, m.id@.len() as int) =~= m.id@);
}

proof fn lemma_lines_stand_in_listing(peers: Seq<PeerRecord>, self_id: Option<Seq<char>>, i: int)
    requires
        0 <= i < peers.len(),
    ensures
        text::has_text(all_peer_lines(peers, self_id), peer_lines(peers[i], self_id)),
    decreases peers.len(),
{
    let none = Seq::<char>::empty();
    let all = all_peer_lines(peers, self_id);
    let rest = all_peer_lines(peers.drop_last(), self_id);
    if i == peers.len() - 1 {
        text::lemma_text_between(rest + "\n"@, peer_lines(peers[i], self_id), none);
        assert(rest + "\n"@ + peer_lines(peers[i], self_id) + none =~= all);
    } else {
        lemma_lines_stand_in_listing(peers.drop_last(), self_id, i);
        let after = "\n"@ + peer_lines(peers.last(), self_id);
        text::lemma_text_within(none, rest, after, peer_lines(peers[i], self_id));
        assert(none + rest + after =~= all);
    }
}

/// Every live session is listed, with its name, its working directory, the end of
/// its id and its note, and the session that asks is marked as such. Where there is none, a fixed text
/// says so.
pub proof fn every_peer_is_listed(peers: Seq<PeerRecord>, self_id: Option<Seq<char>>, i: int)
    requires
        0 <= i < peers.len(),
    ensures
        text::has_text(
            listing(peers, self_id),
            "  • "@ + peers[i].name@ + (if self_id == Some(peers[i].session_id@) {
                " (this session)"@
            } else {
                Seq::empty()
            }) + "\n    cwd: "@ + peers[i].cwd@,
        ),
        text::has_text(
            listing(peers, self_id),
            "\n    id: …"@ + naming::at_end(naming::compact_id(peers[i].session_id@), 8),
        ),
        peers[i].note matches Some(note) ==> text::has_text(
            listing(peers, self_id),
            "\n    note: "@ + note@,
        ),
        listing(Seq::empty(), self_id) == NO_PEERS@,
{
    lemma_lines_stand_in_listing(peers, self_id, i);
    reveal_strlit("");
    assert(""@ =~= Seq::<char>::empty());
    let p = peers[i];
    let none = Seq::<char>::empty();
    let lines = peer_lines(p, self_id);
    let shown = "  • "@ + p.name@ + (if self_id == Some(p.session_id@) {
        " (this session)"@
    } else {
        Seq::empty()
    }) + "\n    cwd: "@ + p.cwd@;
    let id = "\n    id: …"@ + naming::at_end(
        naming::compact_id(p.session_id@),
        SHORT_ID_LEN as int,
    );
    let note = match p.note {
        Some(note) => "\n    note: "@ + note@,
        None => none,
    };
    assert(lines =~= shown + id + note);
    let all = all_peer_lines(peers, self_id);
    let end = "\n\n"@ + PEERS_HINT@;
    let whole = listing(peers, self_id);
    assert(whole =~= "Live peer sessions:"@ + all + end);
    text::lemma_text_within("Live peer sessions:"@, all, end, lines);
    text::lemma_text_between(none, shown, id + note);
    assert(none + shown + (id + note) =~= lines);
    text::lemma_text_in_text(whole, lines, shown);
    text::lemma_text_between(shown, id, note);
    text::lemma_text_in_text(whole, lines, id);
    if p.note is Some {
        text::lemma_text_between(shown + id, note, none);
        assert(shown + id + note + none =~= lines);
        text::lemma_text_in_text(whole, lines, note);
    }
}

}
