//! Cross-session peer messaging: inbox lifecycle for resident sessions.

use vstd::prelude::*;

use serde_json::Value;

use crate::inbox;
use crate::inbox::{format_inbound_prompt, inbox_path_for_session, InboxEnvelope, RepeatGuard};
use crate::json;
use crate::json::get_text;
use crate::naming;
use crate::naming::{default_name_from_cwd, sanitize_peer_name};
use crate::paths;
use crate::registry::{now, PeerRecord};
use crate::text;

verus! {

/// How inbound peer envelopes are delivered to the session actor.
#[derive(Debug, Clone, Copy, PartialEq, Eq, Structural)]
pub enum InboxMode {
    /// Inject as a Grok turn (`SessionCommand::Interject`).
    Interject,
    /// Forward to the pager Cursor client (no Grok turn).
    CursorProxy,
}

// -- Running sessions -------------------------------------------------------

struct PeerRuntime {
    session_id: String,
    name: String,
    cursor_proxy: bool,
}

/// What is known of a session whose inbox is open.
pub struct RuntimeInfo {
    pub name: Seq<char>,
    pub mode: InboxMode,
}

/// The sessions whose inboxes are open.
pub struct Runtimes {
    entries: Vec<PeerRuntime>,
}

spec fn info_of(rt: PeerRuntime) -> RuntimeInfo {
    RuntimeInfo {
        name: rt.name@,
        mode: if rt.cursor_proxy {
            InboxMode::CursorProxy
        } else {
            InboxMode::Interject
        },
    }
}

spec fn entry_of(entries: Seq<PeerRuntime>, session_id: Seq<char>) -> Option<PeerRuntime>
    decreases entries.len(),
{
    if entries.len() == 0 {
        None
    } else if entries.last().session_id@ == session_id {
        Some(entries.last())
    } else {
        entry_of(entries.drop_last(), session_id)
    }
}

spec fn one_entry_each(entries: Seq<PeerRuntime>) -> bool {
    forall|i: int, j: int|
        0 <= i < j < entries.len() ==> (#[trigger] entries[i]).session_id@ != (
        #[trigger] entries[j]).session_id@
}

proof fn lemma_entry_at(entries: Seq<PeerRuntime>, i: int)
    requires
        one_entry_each(entries),
        0 <= i < entries.len(),
    ensures
        entry_of(entries, entries[i].session_id@) == Some(entries[i]),
    decreases entries.len(),
{
    if i < entries.len() - 1 {
        let rest = entries.drop_last();
        assert(entries[i].session_id@ != entries[entries.len() - 1].session_id@);
        lemma_entry_at(rest, i);
    }
}

proof fn lemma_no_entry(entries: Seq<PeerRuntime>, session_id: Seq<char>)
    requires
        forall|i: int| 0 <= i < entries.len() ==> (#[trigger] entries[i]).session_id@ != session_id,
    ensures
        entry_of(entries, session_id) is None,
    decreases entries.len(),
{
    if entries.len() > 0 {
        let rest = entries.drop_last();
        assert(entries[entries.len() - 1].session_id@ != session_id);
        assert forall|i: int| 0 <= i < rest.len() implies (#[trigger] rest[i]).session_id@
            != session_id by {
            assert(rest[i] == entries[i]);
        }
        lemma_no_entry(rest, session_id);
    }
}

proof fn lemma_entry_updated(entries: Seq<PeerRuntime>, i: int, rt: PeerRuntime)
    requires
        0 <= i < entries.len(),
        one_entry_each(entries),
        rt.session_id@ == entries[i].session_id@,
    ensures
        one_entry_each(entries.update(i, rt)),
        entry_of(entries.update(i, rt), rt.session_id@) == Some(rt),
        forall|other: Seq<char>|
            other != rt.session_id@ ==> #[trigger] entry_of(entries.update(i, rt), other)
                == entry_of(entries, other),
{
    let after = entries.update(i, rt);
    assert forall|a: int, b: int| 0 <= a < b < after.len() implies (
    #[trigger] after[a]).session_id@ != (#[trigger] after[b]).session_id@ by {
        assert(entries[a].session_id@ != entries[b].session_id@);
    }
    lemma_entry_at(after, i);
    assert forall|other: Seq<char>| other != rt.session_id@ implies #[trigger] entry_of(
        after,
        other,
    ) == entry_of(entries, other) by {
        lemma_entry_other(entries, i, rt, other);
    }
}

proof fn lemma_entry_other(entries: Seq<PeerRuntime>, i: int, rt: PeerRuntime, other: Seq<char>)
    requires
        0 <= i < entries.len(),
        rt.session_id@ == entries[i].session_id@,
        other != rt.session_id@,
    ensures
        entry_of(entries.update(i, rt), other) == entry_of(entries, other),
    decreases entries.len(),
{
    let after = entries.update(i, rt);
    if i == entries.len() - 1 {
        assert(after.drop_last() =~= entries.drop_last());
    } else {
        assert(after.drop_last() =~= entries.drop_last().update(i, rt));
        lemma_entry_other(entries.drop_last(), i, rt, other);
    }
}

fn position_of(entries: &Vec<PeerRuntime>, session_id: &str) -> (r: Option<usize>)
    requires
        one_entry_each(entries@),
    ensures
        match r {
            Some(i) => i < entries@.len() && entries@[i as int].session_id@ == session_id@
                && entry_of(entries@, session_id@) == Some(entries@[i as int]),
            None => entry_of(entries@, session_id@) is None,
        },
{
    let mut i: usize = 0;
    while i < entries.len()
        invariant
            i <= entries@.len(),
            one_entry_each(entries@),
            forall|j: int| 0 <= j < i ==> (#[trigger] entries@[j]).session_id@ != session_id@,
        decreases entries@.len() - i,
    {
        if text::same_text(entries[i].session_id.as_str(), session_id) {
            proof {
                lemma_entry_at(entries@, i as int);
            }
            return Some(i);
        }
        i += 1;
    }
    proof {
        lemma_no_entry(entries@, session_id@);
    }
    None
}

fn without(entries: &Vec<PeerRuntime>, session_id: &str) -> (r: Vec<PeerRuntime>)
    requires
        one_entry_each(entries@),
    ensures
        one_entry_each(r@),
        forall|i: int| 0 <= i < r@.len() ==> (#[trigger] r@[i]).session_id@ != session_id@,
        entry_of(r@, session_id@) is None,
        forall|other: Seq<char>|
            other != session_id@ ==> same_info(
                #[trigger] entry_of(r@, other),
                entry_of(entries@, other),
            ),
{
    let mut out: Vec<PeerRuntime> = Vec::new();
    let mut i: usize = 0;
    while i < entries.len()
        invariant
            i <= entries@.len(),
            one_entry_each(entries@),
            one_entry_each(out@),
            forall|k: int| 0 <= k < out@.len() ==> (#[trigger] out@[k]).session_id@ != session_id@,
            forall|k: int|
                0 <= k < out@.len() ==> exists|j: int|
                    0 <= j < i && entries@[j].session_id@ == (#[trigger] out@[k]).session_id@,
            forall|other: Seq<char>|
                other != session_id@ ==> same_info(
                    #[trigger] entry_of(out@, other),
                    entry_of(entries@.take(i as int), other),
                ),
        decreases entries@.len() - i,
    {
        let ghost before = out@;
        let ghost next = entries@.take(i + 1);
        proof {
            assert(next.drop_last() =~= entries@.take(i as int));
            assert(next.last() == entries@[i as int]);
        }
        if !text::same_text(entries[i].session_id.as_str(), session_id) {
            let kept = PeerRuntime {
                session_id: entries[i].session_id.clone(),
                name: entries[i].name.clone(),
                cursor_proxy: entries[i].cursor_proxy,
            };
            out.push(kept);
            proof {
                assert(out@.drop_last() =~= before);
                assert forall|other: Seq<char>| other != session_id@ implies same_info(
                    #[trigger] entry_of(out@, other),
                    entry_of(next, other),
                ) by {
                    assert(same_info(
                        entry_of(before, other),
                        entry_of(entries@.take(i as int), other),
                    ));
                }
                assert forall|a: int, b: int| 0 <= a < b < out@.len() implies (
                #[trigger] out@[a]).session_id@ != (#[trigger] out@[b]).session_id@ by {
                    if b == before.len() {
                        let j = choose|j: int|
                            0 <= j < i && entries@[j].session_id@ == before[a].session_id@;
                        assert(entries@[j].session_id@ != entries@[i as int].session_id@);
                        assert(out@[a] == before[a]);
                    } else {
                        assert(out@[a] == before[a] && out@[b] == before[b]);
                    }
                }
                assert forall|k: int| 0 <= k < out@.len() implies exists|j: int|
                    0 <= j < i + 1 && entries@[j].session_id@ == (#[trigger] out@[k]).session_id@ by {
                    if k < before.len() {
                        assert(out@[k] == before[k]);
                        let j = choose|j: int|
                            0 <= j < i && entries@[j].session_id@ == before[k].session_id@;
                        assert(entries@[j].session_id@ == out@[k].session_id@);
                    } else {
                        assert(entries@[i as int].session_id@ == out@[k].session_id@);
                    }
                }
            }
        }
        i += 1;
    }
    proof {
        assert(entries@.take(entries@.len() as int) =~= entries@);
        lemma_no_entry(out@, session_id@);
    }
    out
}

spec fn same_info(a: Option<PeerRuntime>, b: Option<PeerRuntime>) -> bool {
    match (a, b) {
        (Some(x), Some(y)) => info_of(x) == info_of(y),
        (None, None) => true,
        _ => false,
    }
}

impl Runtimes {
    #[verifier::type_invariant]
    spec fn well_formed(self) -> bool {
        one_entry_each(self.entries@)
    }

    /// What is known of a session, if its inbox is open.
    pub closed spec fn info(&self, session_id: Seq<char>) -> Option<RuntimeInfo> {
        match entry_of(self.entries@, session_id) {
            Some(rt) => Some(info_of(rt)),
            None => None,
        }
    }

    /// Every session but `session_id` is as it was in `before`.
    pub open spec fn others_as_in(&self, before: &Runtimes, session_id: Seq<char>) -> bool {
        forall|other: Seq<char>|
            other != session_id ==> #[trigger] self.info(other) == before.info(other)
    }

    /// No open inbox.
    pub fn new() -> (r: Self)
        ensures
            forall|id: Seq<char>| (#[trigger] r.info(id)) is None,
    {
        Runtimes { entries: Vec::new() }
    }

    fn set_mode(&mut self, session_id: &str, mode: InboxMode)
        ensures
            final(self).info(session_id@) == match old(self).info(session_id@) {
                Some(info) => Some(RuntimeInfo { name: info.name, mode }),
                None => None,
            },
            final(self).others_as_in(old(self), session_id@),
    {
        proof {
            use_type_invariant(&*self);
        }
        let mut entries: Vec<PeerRuntime> = Vec::new();
        std::mem::swap(&mut entries, &mut self.entries);
        match position_of(&entries, session_id) {
            Some(i) => {
                let rt = PeerRuntime {
                    session_id: session_id.to_owned(),
                    name: entries[i].name.clone(),
                    cursor_proxy: match mode {
                        InboxMode::CursorProxy => true,
                        InboxMode::Interject => false,
                    },
                };
                proof {
                    lemma_entry_updated(entries@, i as int, rt);
                }
                entries.set(i, rt);
            },
            None => {},
        }
        self.entries = entries;
    }

    fn set_name(&mut self, session_id: &str, name: &str)
        ensures
            final(self).info(session_id@) == match old(self).info(session_id@) {
                Some(info) => Some(RuntimeInfo { name: name@, mode: info.mode }),
                None => None,
            },
            final(self).others_as_in(old(self), session_id@),
    {
        proof {
            use_type_invariant(&*self);
        }
        let mut entries: Vec<PeerRuntime> = Vec::new();
        std::mem::swap(&mut entries, &mut self.entries);
        match position_of(&entries, session_id) {
            Some(i) => {
                let rt = PeerRuntime {
                    session_id: session_id.to_owned(),
                    name: name.to_owned(),
                    cursor_proxy: entries[i].cursor_proxy,
                };
                proof {
                    lemma_entry_updated(entries@, i as int, rt);
                }
                entries.set(i, rt);
            },
            None => {},
        }
        self.entries = entries;
    }

    fn remove(&mut self, session_id: &str)
        ensures
            final(self).info(session_id@) is None,
            final(self).others_as_in(old(self), session_id@),
    {
        proof {
            use_type_invariant(&*self);
        }
        let kept = without(&self.entries, session_id);
        proof {
            assert forall|other: Seq<char>| other != session_id@ implies same_info(
                #[trigger] entry_of(kept@, other),
                entry_of(self.entries@, other),
            ) by {}
        }
        self.entries = kept;
    }

    fn open(&mut self, session_id: &str, name: &str)
        ensures
            final(self).info(session_id@) == Some(
                RuntimeInfo { name: name@, mode: InboxMode::Interject },
            ),
            final(self).others_as_in(old(self), session_id@),
    {
        proof {
            use_type_invariant(&*self);
        }
        let mut kept = without(&self.entries, session_id);
        let ghost rest = kept@;
        kept.push(
            PeerRuntime {
                session_id: session_id.to_owned(),
                name: name.to_owned(),
                cursor_proxy: false,
            },
        );
        proof {
            assert(kept@.drop_last() =~= rest);
            assert forall|a: int, b: int| 0 <= a < b < kept@.len() implies (
            #[trigger] kept@[a]).session_id@ != (#[trigger] kept@[b]).session_id@ by {
                assert(kept@[a] == rest[a]);
                if b < rest.len() {
                    assert(kept@[b] == rest[b]);
                }
            }
            assert forall|other: Seq<char>| other != session_id@ implies same_info(
                #[trigger] entry_of(kept@, other),
                entry_of(self.entries@, other),
            ) by {
                assert(same_info(entry_of(rest, other), entry_of(self.entries@, other)));
            }
        }
        self.entries = kept;
    }
}

/// Switch inbox delivery for a live session. No-op if the session is not
/// registered.
pub fn set_inbox_mode(runtimes: &mut Runtimes, session_id: &str, mode: InboxMode)
    ensures
        final(runtimes).info(session_id@) == match old(runtimes).info(session_id@) {
            Some(info) => Some(RuntimeInfo { name: info.name, mode }),
            None => None,
        },
        final(runtimes).others_as_in(old(runtimes), session_id@),
{
    runtimes.set_mode(session_id, mode)
}

/// Current inbox mode, if the session is registered.
pub fn inbox_mode(runtimes: &Runtimes, session_id: &str) -> (r: Option<InboxMode>)
    ensures
        r == match runtimes.info(session_id@) {
            Some(info) => Some(info.mode),
            None => None,
        },
{
    proof {
        use_type_invariant(runtimes);
    }
    match position_of(&runtimes.entries, session_id) {
        Some(i) => Some(
            if runtimes.entries[i].cursor_proxy {
                InboxMode::CursorProxy
            } else {
                InboxMode::Interject
            },
        ),
        None => None,
    }
}

/// Current live peer name for a session, if registered.
pub fn live_name(runtimes: &Runtimes, session_id: &str) -> (r: Option<String>)
    ensures
        match runtimes.info(session_id@) {
            Some(info) => r is Some && r->0@ == info.name,
            None => r is None,
        },
{
    proof {
        use_type_invariant(runtimes);
    }
    match position_of(&runtimes.entries, session_id) {
        Some(i) => Some(runtimes.entries[i].name.clone()),
        None => None,
    }
}

// -- Inbound envelopes ------------------------------------------------------

/// What the session actor is told to do.
#[derive(Debug)]
pub enum SessionCommand {
    /// Run a Grok turn on the text.
    Interject { text: String, id: Option<String>, images: Vec<Vec<u8>> },
    /// Hand the text to the Cursor client.
    CursorProxyInbound { text: String, reply_to: String, from_name: String },
}

/// `s` is written like a random UUID: hyphens after 8, 12, 16 and 20 of its 32
/// lower-case hexadecimal digits, the digit 4 for the version, and one of 8, 9, a
/// and b for the variant.
pub open spec fn is_random_uuid(s: Seq<char>) -> bool {
    &&& s.len() == 36
    &&& forall|i: int|
        0 <= i < 36 ==> if i == 8 || i == 13 || i == 18 || i == 23 {
            #[trigger] s[i] == '-'
        } else {
            ('0' <= s[i] && s[i] <= '9') || ('a' <= s[i] && s[i] <= 'f')
        }
    &&& s[14] == '4'
    &&& s[19] == '8' || s[19] == '9' || s[19] == 'a' || s[19] == 'b'
}

/// `uuid::Uuid::new_v4`, printed with hyphens. It claims the form of a random UUID;
/// which digits there are depends on chance.
#[verifier::external_body]
fn new_uuid() -> (r: String)
    ensures
        is_random_uuid(r@),
{
    uuid::Uuid::new_v4().to_string()
}

/// The address to which Cursor's answer goes: the reply address, or the sender's
/// name where there is none.
pub open spec fn proxy_reply_to(env: InboxEnvelope) -> Seq<char> {
    match env.reply_to {
        Some(s) => if s@.len() > 0 {
            s@
        } else {
            env.from_name@
        },
        None => env.from_name@,
    }
}

/// `cmd` hands an envelope on in the given mode. A Grok turn runs on the inbound
/// prompt under `id`; the Cursor client gets the message as it came.
pub open spec fn hands_on(
    cmd: SessionCommand,
    mode: InboxMode,
    env: InboxEnvelope,
    id: Seq<char>,
) -> bool {
    match mode {
        InboxMode::CursorProxy => cmd matches SessionCommand::CursorProxyInbound {
            text,
            reply_to,
            from_name,
        } && text@ == env.message@ && reply_to@ == proxy_reply_to(env) && from_name@
            == env.from_name@,
        InboxMode::Interject => cmd matches SessionCommand::Interject {
            text,
            id: Some(turn),
            images,
        } && text@ == inbox::inbound_prompt(env) && turn@ == "peer-msg-"@ + id && images@.len()
            == 0,
    }
}

/// Choose the session command for an inbound envelope, with the id of a Grok
/// turn.
pub fn command_with_id(mode: InboxMode, env: &InboxEnvelope, id: &str) -> (r: SessionCommand)
    ensures
        hands_on(r, mode, *env, id@),
{
    match mode {
        InboxMode::CursorProxy => {
            let reply_to = match &env.reply_to {
                Some(s) => if s.as_str().is_empty() {
                    env.from_name.clone()
                } else {
                    s.clone()
                },
                None => env.from_name.clone(),
            };
            SessionCommand::CursorProxyInbound {
                text: env.message.clone(),
                reply_to,
                from_name: env.from_name.clone(),
            }
        },
        InboxMode::Interject => SessionCommand::Interject {
            text: format_inbound_prompt(env),
            id: Some("peer-msg-".to_owned().concat(id)),
            images: Vec::new(),
        },
    }
}

/// Choose the session command for an inbound envelope.
pub fn command_for_envelope(mode: InboxMode, env: &InboxEnvelope) -> (r: SessionCommand)
    ensures
        exists|id: Seq<char>| is_random_uuid(id) && #[trigger] hands_on(r, mode, *env, id),
{
    let id = new_uuid();
    command_with_id(mode, env, id.as_str())
}

/// How long an identical message counts as a repeat, in nanoseconds.
pub const REPEAT_WINDOW_NANOS: u128 = 2_000_000_000;

/// What two envelopes share when one repeats the other.
pub open spec fn repeat_key(env: InboxEnvelope) -> Seq<char> {
    env.from_session_id@ + ":"@ + env.message@
}

fn repeat_key_of(env: &InboxEnvelope) -> (r: String)
    ensures
        r@ == repeat_key(*env),
{
    let mut key = env.from_session_id.clone();
    key.append(":");
    key.append(env.message.as_str());
    key
}

/// Hand on an envelope that comes in at `now` nanoseconds, unless it repeats the
/// last one handed on.
pub fn inbound_at(repeats: &mut RepeatGuard, mode: InboxMode, env: &InboxEnvelope, now: u128) -> (r:
    Option<SessionCommand>)
    ensures
        final(repeats).window_nanos() == old(repeats).window_nanos(),
        r is None <==> old(repeats).is_repeat(repeat_key(*env), now as nat),
        r matches Some(cmd) ==> exists|id: Seq<char>|
            is_random_uuid(id) && #[trigger] hands_on(cmd, mode, *env, id),
        final(repeats).last_accepted() == if r is None {
            old(repeats).last_accepted()
        } else {
            Some((repeat_key(*env), now as nat))
        },
{
    let key = repeat_key_of(env);
    if repeats.accept_at(key.as_str(), now) {
        let cmd = command_for_envelope(mode, env);
        Some(cmd)
    } else {
        None
    }
}

/// Hand on an envelope that comes in now, unless it repeats the last one handed
/// on.
pub fn inbound(repeats: &mut RepeatGuard, mode: InboxMode, env: &InboxEnvelope) -> (r: Option<
    SessionCommand,
>)
    ensures
        final(repeats).window_nanos() == old(repeats).window_nanos(),
        r matches Some(cmd) ==> exists|id: Seq<char>|
            is_random_uuid(id) && #[trigger] hands_on(cmd, mode, *env, id),
        exists|at: nat|
            {
                &&& r is None <==> #[trigger] old(repeats).is_repeat(repeat_key(*env), at)
                &&& final(repeats).last_accepted() == if r is None {
                    old(repeats).last_accepted()
                } else {
                    Some((repeat_key(*env), at))
                }
            },
{
    let key = repeat_key_of(env);
    if repeats.accept(key.as_str()) {
        let cmd = command_for_envelope(mode, env);
        Some(cmd)
    } else {
        None
    }
}

// -- Lifecycle --------------------------------------------------------------

/// The name that a session asks for: the preferred one if anything is left of it,
/// otherwise one made of its folder and its id.
pub open spec fn asked_name(
    preferred_name: Option<Seq<char>>,
    cwd: Seq<char>,
    session_id: Seq<char>,
) -> Seq<char> {
    match preferred_name {
        Some(name) => if naming::sanitized(name).len() > 0 {
            naming::sanitized(name)
        } else {
            naming::default_name(cwd, session_id)
        },
        None => naming::default_name(cwd, session_id),
    }
}

fn ask_name(preferred_name: Option<&str>, cwd: &str, session_id: &str) -> (r: String)
    ensures
        r@ == asked_name(
            text::opt_str(preferred_name),
            cwd@,
            session_id@,
        ),
{
    match preferred_name {
        Some(name) => {
            let sanitized = sanitize_peer_name(name);
            if sanitized.as_str().is_empty() {
                default_name_from_cwd(cwd, session_id)
            } else {
                sanitized
            }
        },
        None => default_name_from_cwd(cwd, session_id),
    }
}

/// The record that a session asks to be registered with.
pub open spec fn is_start_record(
    p: PeerRecord,
    session_id: Seq<char>,
    name: Seq<char>,
    cwd: Seq<char>,
    pid: u32,
    inbox_path: Seq<char>,
) -> bool {
    &&& p.session_id@ == session_id
    &&& p.name@ == name
    &&& p.cwd@ == cwd
    &&& p.pid == pid
    &&& p.inbox_path@ == inbox_path
    &&& p.updated_at.since_epoch()
    &&& p.note is None
}

/// Where and as what a session starts.
pub struct StartRequest<'a> {
    pub session_id: &'a str,
    pub cwd: &'a str,
    pub preferred_name: Option<&'a str>,
    pub grok_home: &'a str,
    pub pid: u32,
}

impl<'a> StartRequest<'a> {
    /// The name that the session asks for.
    pub open spec fn name(self) -> Seq<char> {
        asked_name(
            text::opt_str(self.preferred_name),
            self.cwd@,
            self.session_id@,
        )
    }

    /// The inbox that the session asks for.
    pub open spec fn inbox(self) -> Seq<char> {
        paths::session_file(self.grok_home@, self.session_id@, ".sock"@)
    }
}

/// Registering a session whose inbox is bound at `bound` may end with `r` and
/// leave `after`.
pub open spec fn registers_session<R: FnOnce(PeerRecord) -> Result<PeerRecord, String>>(
    request: StartRequest,
    bound: Seq<char>,
    register: R,
    before: Runtimes,
    after: Runtimes,
    r: Option<String>,
) -> bool {
    exists|record: PeerRecord, registered: Result<PeerRecord, String>|
        {
            &&& #[trigger] register.ensures((record,), registered)
            &&& is_start_record(
                record,
                request.session_id@,
                request.name(),
                request.cwd@,
                request.pid,
                bound,
            )
            &&& after.others_as_in(&before, request.session_id@)
            &&& match registered {
                Ok(rec) => r is Some && r->0@ == rec.name@ && after.info(request.session_id@)
                    == Some(RuntimeInfo { name: rec.name@, mode: InboxMode::Interject }),
                Err(_) => r is None && after.info(request.session_id@) is None,
            }
        }
}

/// Starting a session may end with `r` and leave `after`: its old inbox is closed
/// and unregistered first, then a new one is bound, then the session is
/// registered. A failure leaves it without an open inbox.
pub open spec fn starts<
    U: FnOnce(&str) -> Result<(), String>,
    B: FnOnce(&str) -> Result<String, String>,
    R: FnOnce(PeerRecord) -> Result<PeerRecord, String>,
>(
    request: StartRequest,
    unregister: U,
    bind: B,
    register: R,
    before: Runtimes,
    after: Runtimes,
    r: Option<String>,
) -> bool {
    &&& exists|gone: Result<(), String>| #[trigger]
        unregister.ensures((request.session_id,), gone)
    &&& exists|path: &str, bound: Result<String, String>|
        {
            &&& path@ == request.inbox()
            &&& #[trigger] bind.ensures((path,), bound)
            &&& match bound {
                Ok(at) => registers_session(request, at@, register, before, after, r),
                Err(_) => r is None && after.info(request.session_id@) is None
                    && after.others_as_in(&before, request.session_id@),
            }
        }
}

/// Stop peer messaging and unregister the session. `unregister` is called whether
/// or not its inbox was open, and its failure changes nothing.
pub fn stop_for_session<U: FnOnce(&str) -> Result<(), String>>(
    runtimes: &mut Runtimes,
    session_id: &str,
    unregister: U,
)
    requires
        unregister.requires((session_id,)),
    ensures
        final(runtimes).info(session_id@) is None,
        final(runtimes).others_as_in(old(runtimes), session_id@),
        exists|gone: Result<(), String>| #[trigger] unregister.ensures((session_id,), gone),
{
    runtimes.remove(session_id);
    let _gone = unregister(session_id);
}

/// Once `unregister` has returned, `bind` may be called for the session's inbox.
pub open spec fn binds_next<
    U: FnOnce(&str) -> Result<(), String>,
    B: FnOnce(&str) -> Result<String, String>,
>(request: StartRequest, unregister: U, bind: B) -> bool {
    forall|gone: Result<(), String>, path: &str|
        #[trigger] unregister.ensures((request.session_id,), gone) && path@ == request.inbox()
            ==> #[trigger] bind.requires((path,))
}

/// Once `bind` has bound the session's inbox, `register` may be called for the
/// session's record with that inbox.
pub open spec fn registers_next<
    B: FnOnce(&str) -> Result<String, String>,
    R: FnOnce(PeerRecord) -> Result<PeerRecord, String>,
>(request: StartRequest, bind: B, register: R) -> bool {
    forall|path: &str, at: String, record: PeerRecord|
        {
            &&& #[trigger] bind.ensures((path,), Ok::<String, String>(at))
            &&& path@ == request.inbox()
            &&& is_start_record(
                record,
                request.session_id@,
                request.name(),
                request.cwd@,
                request.pid,
                at@,
            )
        } ==> #[trigger] register.requires((record,))
}

/// Start peer messaging for a resident session: unregister what was there, bind an
/// inbox socket, then register the session. Returns the name it was registered
/// under.
pub fn start_for_session<
    U: FnOnce(&str) -> Result<(), String>,
    B: FnOnce(&str) -> Result<String, String>,
    R: FnOnce(PeerRecord) -> Result<PeerRecord, String>,
>(runtimes: &mut Runtimes, request: StartRequest, unregister: U, bind: B, register: R) -> (r: Option<
    String,
>)
    requires
        unregister.requires((request.session_id,)),
        binds_next(request, unregister, bind),
        registers_next(request, bind, register),
    ensures
        starts(request, unregister, bind, register, *old(runtimes), *final(runtimes), r),
{
    stop_for_session(runtimes, request.session_id, unregister);
    let name = ask_name(request.preferred_name, request.cwd, request.session_id);
    let wanted = inbox_path_for_session(request.grok_home, request.session_id);
    let path: &str = wanted.as_str();
    assert(path@ == request.inbox());
    let bound = bind(path);
    let ghost b = bound;
    assert(bind.ensures((path,), b));
    let at = match bound {
        Ok(at) => at,
        Err(_) => return None,
    };
    let record = PeerRecord {
        session_id: request.session_id.to_owned(),
        name,
        cwd: request.cwd.to_owned(),
        pid: request.pid,
        inbox_path: at,
        updated_at: now(),
        note: None,
    };
    let ghost rec = record;
    assert(bind.ensures((path,), Ok::<String, String>(rec.inbox_path)));
    let registered = register(record);
    let ghost reg = registered;
    assert(register.ensures((rec,), reg));
    match registered {
        Ok(done) => {
            runtimes.open(request.session_id, done.name.as_str());
            Some(done.name)
        },
        Err(_) => None,
    }
}

/// Update the live peer name after `/rename`. Returns the name it was given.
pub fn rename_for_session<U: FnOnce(&str, &str) -> Result<Option<PeerRecord>, String>>(
    runtimes: &mut Runtimes,
    session_id: &str,
    new_name: &str,
    update_name: U,
) -> (r: Option<String>)
    requires
        update_name.requires((session_id, new_name)),
    ensures
        exists|updated: Result<Option<PeerRecord>, String>|
            {
                &&& #[trigger] update_name.ensures((session_id, new_name), updated)
                &&& final(runtimes).others_as_in(old(runtimes), session_id@)
                &&& match updated {
                    Ok(Some(rec)) => r is Some && r->0@ == rec.name@ && final(runtimes).info(
                        session_id@,
                    ) == match old(runtimes).info(session_id@) {
                        Some(info) => Some(RuntimeInfo { name: rec.name@, mode: info.mode }),
                        None => None,
                    },
                    _ => r is None && final(runtimes).info(session_id@) == old(runtimes).info(
                        session_id@,
                    ),
                }
            },
{
    let updated = update_name(session_id, new_name);
    let ghost u = updated;
    assert(update_name.ensures((session_id, new_name), u));
    match updated {
        Ok(Some(record)) => {
            runtimes.set_name(session_id, record.name.as_str());
            Some(record.name)
        },
        Ok(None) => None,
        Err(_) => None,
    }
}

/// The preferred session name in the `_meta` of a session request, if anything is
/// left of it.
pub open spec fn meta_name(meta: Option<json::Tree>) -> Option<Seq<char>> {
    match json::as_text(json::member_of(meta, "sessionName"@)) {
        Some(s) => if text::trimmed(s).len() > 0 && naming::sanitized(text::trimmed(s)).len() > 0 {
            Some(naming::sanitized(text::trimmed(s)))
        } else {
            None
        },
        None => None,
    }
}

/// Parse preferred session name from ACP `_meta.sessionName`.
pub fn preferred_name_from_meta(meta: Option<&Value>) -> (r: Option<String>)
    ensures
        match meta_name(
            match meta {
                Some(m) => Some(json::json_tree(*m)),
                None => None,
            },
        ) {
            Some(name) => r is Some && r->0@ == name,
            None => r is None,
        },
{
    let meta = match meta {
        Some(m) => m,
        None => return None,
    };
    let name = match get_text(meta, "sessionName") {
        Some(s) => text::trim(s.as_str()),
        None => return None,
    };
    if name.as_str().is_empty() {
        return None;
    }
    let sanitized = sanitize_peer_name(name.as_str());
    if sanitized.as_str().is_empty() {
        None
    } else {
        Some(sanitized)
    }
}

/// Persist `--name` / `_meta.sessionName` as a manual session title. Returns the
/// title to announce: the sanitized name, once it is stored. Nothing is stored of a
/// name that leaves none.
pub fn apply_startup_name_title<S: FnOnce(&str) -> Result<(), String>>(
    name: &str,
    store_title: S,
) -> (r: Option<String>)
    requires
        naming::sanitized(name@).len() > 0 ==> forall|title: &str|
            title@ == naming::sanitized(name@) ==> #[trigger] store_title.requires((title,)),
    ensures
        naming::sanitized(name@).len() == 0 ==> r is None,
        naming::sanitized(name@).len() > 0 ==> exists|title: &str, stored: Result<(), String>|
            {
                &&& title@ == naming::sanitized(name@)
                &&& #[trigger] store_title.ensures((title,), stored)
                &&& match stored {
                    Ok(_) => r is Some && r->0@ == title@,
                    Err(_) => r is None,
                }
            },
{
    let title = sanitize_peer_name(name);
    if title.as_str().is_empty() {
        return None;
    }
    let shown: &str = title.as_str();
    let stored = store_title(shown);
    let ghost s = stored;
    assert(store_title.ensures((shown,), s));
    match stored {
        Ok(_) => Some(title),
        Err(_) => None,
    }
}

// -- Laws -------------------------------------------------------------------

/// A message from another session never starts a Grok turn while the session is a
/// Cursor client, and always does while it is not.
pub proof fn mode_decides_who_answers(
    cmd: SessionCommand,
    mode: InboxMode,
    env: InboxEnvelope,
    id: Seq<char>,
)
    requires
        hands_on(cmd, mode, env, id),
    ensures
        cmd is Interject <==> mode == InboxMode::Interject,
        cmd is CursorProxyInbound <==> mode == InboxMode::CursorProxy,
{
}

/// A session that started delivers its messages as Grok turns until it is
/// switched.
pub proof fn started_session_interjects<R: FnOnce(PeerRecord) -> Result<PeerRecord, String>>(
    request: StartRequest,
    bound: Seq<char>,
    register: R,
    before: Runtimes,
    after: Runtimes,
    r: Option<String>,
)
    requires
        registers_session(request, bound, register, before, after, r),
    ensures
        r is Some <==> after.info(request.session_id@) is Some,
        r matches Some(name) ==> after.info(request.session_id@) == Some(
            RuntimeInfo { name: name@, mode: InboxMode::Interject },
        ),
{
}

/// Two envelopes are taken for repeats of each other only if they bring the same
/// message from the same session. Another message of the same session is new,
/// whenever it comes; so is any message of another session, where session ids
/// hold no colon. The same message of the same session is a repeat within the
/// window, and new behind it.
pub proof fn only_identical_messages_are_repeats(
    guard: RepeatGuard,
    first: InboxEnvelope,
    second: InboxEnvelope,
    at: nat,
    now: nat,
)
    requires
        guard.last_accepted() == Some((repeat_key(first), at)),
    ensures
        second.from_session_id@ == first.from_session_id@ && second.message@ != first.message@
            ==> !guard.is_repeat(repeat_key(second), now),
        second.from_session_id@ != first.from_session_id@ && !first.from_session_id@.contains(':')
            && !second.from_session_id@.contains(':') ==> !guard.is_repeat(
            repeat_key(second),
            now,
        ),
        second.from_session_id@ == first.from_session_id@ && second.message@ == first.message@ && at
            <= now ==> (guard.is_repeat(repeat_key(second), now) <==> now - at
            < guard.window_nanos()),
{
    reveal_strlit(":");
    let a = first.from_session_id@;
    let b = second.from_session_id@;
    let left = repeat_key(first);
    let right = repeat_key(second);
    assert(":"@ =~= seq![':']);
    if a == b && first.message@ != second.message@ {
        if left == right {
            let n = a.len() as int + 1;
            assert(left.skip(n) =~= first.message@);
            assert(right.skip(n) =~= second.message@);
        }
    }
    if a != b && !a.contains(':') && !b.contains(':') {
        if left == right {
            text::first_place_is_found(a, ':', first.message@);
            text::first_place_is_found(b, ':', second.message@);
            assert(a + seq![':'] + first.message@ =~= left);
            assert(b + seq![':'] + second.message@ =~= right);
            assert(left.take(a.len() as int) =~= a);
            assert(right.take(b.len() as int) =~= b);
        }
    }
}

/// Identical messages of a session are dropped within two seconds.
pub proof fn repeats_are_dropped_for_two_seconds(
    guard: RepeatGuard,
    env: InboxEnvelope,
    at: nat,
    now: nat,
)
    requires
        guard.last_accepted() == Some((repeat_key(env), at)),
        guard.window_nanos() == REPEAT_WINDOW_NANOS,
        at <= now,
    ensures
        guard.is_repeat(repeat_key(env), now) <==> now < at + 2 * 1_000_000_000,
{
}

/// The Cursor client gets the message letter for letter and the sender's name,
/// and is to answer at the reply address, or to the sender where there is none.
/// A Grok turn gets the inbound prompt and no images, under an id of its own.
pub proof fn message_is_handed_on_whole(
    cmd: SessionCommand,
    mode: InboxMode,
    env: InboxEnvelope,
    id: Seq<char>,
)
    requires
        hands_on(cmd, mode, env, id),
    ensures
        cmd matches SessionCommand::CursorProxyInbound { text, reply_to, from_name } ==> {
            &&& text@ == env.message@
            &&& from_name@ == env.from_name@
            &&& reply_to@ == env.from_name@ || (env.reply_to matches Some(s) && reply_to@ == s@)
            &&& (env.reply_to matches Some(s) && s@.len() > 0) ==> reply_to@ == env.reply_to->0@
            &&& (env.reply_to matches Some(s) ==> s@.len() == 0) ==> reply_to@ == env.from_name@
        },
        cmd matches SessionCommand::Interject { text, id: turn, images } ==> {
            &&& text@ == inbox::inbound_prompt(env)
            &&& images@.len() == 0
            &&& turn matches Some(t) && "peer-msg-"@.is_prefix_of(t@) && t@.skip(
                "peer-msg-"@.len() as int,
            ) == id
        },
{
    match cmd {
        SessionCommand::Interject { text, id: Some(turn), images } => {
            assert(turn@.subrange(0, "peer-msg-"@.len() as int) =~= "peer-msg-"@);
            assert(turn@.skip("peer-msg-"@.len() as int) =~= id);
        },
        _ => {},
    }
}

/// A session asks for the name it prefers, if that is a clean name, and for the
/// default name where it prefers none or where nothing is left of it.
pub proof fn preferred_name_is_asked_for(
    preferred: Option<Seq<char>>,
    cwd: Seq<char>,
    session_id: Seq<char>,
)
    ensures
        preferred matches Some(name) ==> name.len() > 0 && naming::clean_name(name) ==> asked_name(
            preferred,
            cwd,
            session_id,
        ) == name,
        preferred is None ==> asked_name(preferred, cwd, session_id) == naming::default_name(
            cwd,
            session_id,
        ),
        preferred matches Some(name) ==> naming::sanitized(name).len() == 0 ==> asked_name(
            preferred,
            cwd,
            session_id,
        ) == naming::default_name(cwd, session_id),
{
    match preferred {
        Some(name) => {
            if naming::clean_name(name) {
                naming::clean_name_is_kept(name);
            }
        },
        None => {},
    }
}

/// The session name in the request's `_meta` is taken as it is where it is clean;
/// a blank one, another kind of value, or none at all is no name.
pub proof fn meta_name_is_taken(meta: json::Tree, name: Seq<char>)
    requires
        meta matches json::Tree::Object(m) && m.contains_key("sessionName"@) && m["sessionName"@]
            == json::Tree::Text(name),
    ensures
        naming::clean_name(name) && name.len() > 0 ==> meta_name(Some(meta)) == Some(name),
        text::trimmed(name).len() == 0 ==> meta_name(Some(meta)) is None,
        meta_name(None) is None,
        meta_name(Some(json::Tree::Object(Map::empty()))) is None,
{
    if naming::clean_name(name) && name.len() > 0 {
        assert(text::white_space(name[0]) ==> name[0] == ' ');
        assert(text::white_space(name[name.len() - 1]) ==> name[name.len() - 1] == ' ');
        text::lemma_trimmed_noop(name);
        naming::clean_name_is_kept(name);
    }
}

/// A session starts in this order: what was registered under its id is unregistered,
/// the inbox named after it is bound, and it is registered with its own id, directory
/// and process, the inbox that was bound, the name it asked for and no note. It goes
/// by the name it was registered under. Where binding or registering fails, it has no
/// open inbox; the other sessions notice nothing.
pub proof fn session_starts_as_requested<
    U: FnOnce(&str) -> Result<(), String>,
    B: FnOnce(&str) -> Result<String, String>,
    R: FnOnce(PeerRecord) -> Result<PeerRecord, String>,
>(
    request: StartRequest,
    unregister: U,
    bind: B,
    register: R,
    before: Runtimes,
    after: Runtimes,
    r: Option<String>,
    other: Seq<char>,
)
    requires
        starts(request, unregister, bind, register, before, after, r),
    ensures
        other != request.session_id@ ==> after.info(other) == before.info(other),
        exists|gone: Result<(), String>| #[trigger]
            unregister.ensures((request.session_id,), gone),
        exists|path: &str, bound: Result<String, String>|
            {
                &&& #[trigger] bind.ensures((path,), bound)
                &&& path@ == paths::session_file(
                    request.grok_home@,
                    request.session_id@,
                    ".sock"@,
                )
                &&& bound is Err ==> r is None && after.info(request.session_id@) is None
                &&& bound matches Ok(at) ==> exists|
                    record: PeerRecord,
                    registered: Result<PeerRecord, String>,
                |
                    {
                        &&& #[trigger] register.ensures((record,), registered)
                        &&& record.session_id@ == request.session_id@
                        &&& record.name@ == request.name()
                        &&& record.cwd@ == request.cwd@
                        &&& record.pid == request.pid
                        &&& record.inbox_path@ == at@
                        &&& record.note is None
                        &&& r is Some <==> registered is Ok
                        &&& registered matches Ok(rec) ==> r->0@ == rec.name@
                        &&& registered is Err ==> after.info(request.session_id@) is None
                    }
            },
{
    let (path, bound) = choose|path: &str, bound: Result<String, String>|
        {
            &&& path@ == request.inbox()
            &&& #[trigger] bind.ensures((path,), bound)
            &&& match bound {
                Ok(at) => registers_session(request, at@, register, before, after, r),
                Err(_) => r is None && after.info(request.session_id@) is None
                    && after.others_as_in(&before, request.session_id@),
            }
        };
    match bound {
        Ok(at) => {
            let (record, registered) = choose|
                record: PeerRecord,
                registered: Result<PeerRecord, String>,
            |
                {
                    &&& #[trigger] register.ensures((record,), registered)
                    &&& is_start_record(
                        record,
                        request.session_id@,
                        request.name(),
                        request.cwd@,
                        request.pid,
                        at@,
                    )
                    &&& after.others_as_in(&before, request.session_id@)
                    &&& match registered {
                        Ok(rec) => r is Some && r->0@ == rec.name@ && after.info(
                            request.session_id@,
                        ) == Some(RuntimeInfo { name: rec.name@, mode: InboxMode::Interject }),
                        Err(_) => r is None && after.info(request.session_id@) is None,
                    }
                };
            assert(register.ensures((record,), registered));
        },
        Err(_) => {},
    }
    assert(bind.ensures((path,), bound));
}

}
