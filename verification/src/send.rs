//! Resolve a live peer and deliver a plain-text inbox message.

use vstd::prelude::*;
use vstd::string::*;
use vstd::utf8::*;

use crate::inbox;
use crate::inbox::{plain_envelope, InboxEnvelope, InboxSendError};
use crate::registry;
use crate::registry::PeerRecord;
use crate::seqs;
use crate::text;

verus! {

/// Max accepted message size in bytes (matches the `send_message` tool).
pub const MAX_PEER_MESSAGE_LEN: usize = 32_768;

/// Outcome of [`send_to_live_peer`].
#[derive(Debug, PartialEq, Eq)]
pub struct PeerSendOutput {
    pub status: String,
    pub to_name: String,
    pub to_session_id: String,
    pub detail: String,
}

/// The texts of an outcome.
pub struct SendReport {
    pub status: Seq<char>,
    pub to_name: Seq<char>,
    pub to_session_id: Seq<char>,
    pub detail: Seq<char>,
}

impl View for PeerSendOutput {
    type V = SendReport;

    open spec fn view(&self) -> SendReport {
        SendReport {
            status: self.status@,
            to_name: self.to_name@,
            to_session_id: self.to_session_id@,
            detail: self.detail@,
        }
    }
}

impl Clone for PeerSendOutput {
    fn clone(&self) -> (r: Self)
        ensures
            r == *self,
    {
        PeerSendOutput {
            status: self.status.clone(),
            to_name: self.to_name.clone(),
            to_session_id: self.to_session_id.clone(),
            detail: self.detail.clone(),
        }
    }
}

// -- Reports ----------------------------------------------------------------

/// The report of a message that reached nobody.
pub open spec fn unreachable_report(
    to_name: Seq<char>,
    to_session_id: Seq<char>,
    detail: Seq<char>,
) -> SendReport {
    SendReport { status: "unreachable"@, to_name, to_session_id, detail }
}

/// The report of a message that was delivered.
pub open spec fn delivered_report(to_name: Seq<char>, to_session_id: Seq<char>) -> SendReport {
    SendReport {
        status: "delivered"@,
        to_name,
        to_session_id,
        detail: "Message delivered to peer '"@ + to_name + "'."@,
    }
}

/// The report of a delivery to `target` that ended with `outcome`.
pub open spec fn sent_report(target: PeerRecord, outcome: Result<(), InboxSendError>) -> SendReport {
    match outcome {
        Ok(_) => delivered_report(target.name@, target.session_id@),
        Err(e) => unreachable_report(
            target.name@,
            target.session_id@,
            "Failed to deliver to '"@ + target.name@ + "': "@ + e.shown(),
        ),
    }
}

impl PeerSendOutput {
    /// The outcome of a delivered message.
    pub fn delivered(to_name: String, to_session_id: String) -> (r: Self)
        ensures
            r@ == delivered_report(to_name@, to_session_id@),
    {
        let mut detail = "Message delivered to peer '".to_owned();
        detail.append(to_name.as_str());
        detail.append("'.");
        PeerSendOutput { status: "delivered".to_owned(), to_name, to_session_id, detail }
    }

    /// The outcome of a message that reached nobody.
    pub fn unreachable(to_name: &str, to_session_id: &str, detail: String) -> (r: Self)
        ensures
            r@ == unreachable_report(to_name@, to_session_id@, detail@),
    {
        PeerSendOutput {
            status: "unreachable".to_owned(),
            to_name: to_name.to_owned(),
            to_session_id: to_session_id.to_owned(),
            detail,
        }
    }

    /// True when the message reached its target.
    pub fn is_delivered(&self) -> (r: bool)
        ensures
            r == (self@.status == "delivered"@),
    {
        text::same_text(self.status.as_str(), "delivered")
    }
}

/// The outcome of a delivery to `target`.
pub fn report_of(target: &PeerRecord, outcome: Result<(), InboxSendError>) -> (r: PeerSendOutput)
    ensures
        r@ == sent_report(*target, outcome),
{
    match outcome {
        Ok(_) => PeerSendOutput::delivered(target.name.clone(), target.session_id.clone()),
        Err(e) => {
            let mut detail = "Failed to deliver to '".to_owned();
            detail.append(target.name.as_str());
            detail.append("': ");
            detail.append(e.message().as_str());
            PeerSendOutput::unreachable(target.name.as_str(), target.session_id.as_str(), detail)
        },
    }
}

// -- Finding the target -----------------------------------------------------

/// `peer` answers to `key`: by its session id, by its name whatever the ASCII
/// case, or by the end of its session id.
pub open spec fn answers_to(peer: PeerRecord, key: Seq<char>) -> bool {
    ||| peer.session_id@ == key
    ||| text::lower(peer.name@) == text::lower(key)
    ||| key.is_suffix_of(peer.session_id@)
}

/// The test that a peer is of another session and answers to `key`.
pub open spec fn candidate(from_session_id: Seq<char>, key: Seq<char>) -> spec_fn(
    PeerRecord,
) -> bool {
    |p: PeerRecord| p.session_id@ != from_session_id && answers_to(p, key)
}

/// The live peers that a message addressed to `key` could be for.
pub open spec fn candidates(
    live: Seq<PeerRecord>,
    from_session_id: Seq<char>,
    key: Seq<char>,
) -> Seq<PeerRecord> {
    live.filter(candidate(from_session_id, key))
}

/// How many bytes of a session id tell ambiguous peers apart.
pub open spec fn head_len(session_id: Seq<char>) -> int {
    let len = encode_utf8(session_id).len() as int;
    if len < 8 {
        len
    } else {
        8
    }
}

/// The text of the first eight bytes of a session id.
pub open spec fn id_head(session_id: Seq<char>) -> Seq<char> {
    decode_utf8(encode_utf8(session_id).subrange(0, head_len(session_id)))
}

/// The first eight bytes of the session id end between two characters.
pub open spec fn head_is_text(session_id: Seq<char>) -> bool {
    is_char_boundary(encode_utf8(session_id), head_len(session_id))
}

/// The first eight bytes of every session id end between two characters.
pub open spec fn heads_are_text(live: Seq<PeerRecord>) -> bool {
    forall|i: int| 0 <= i < live.len() ==> head_is_text((#[trigger] live[i]).session_id@)
}

/// How one of several matching peers is named.
pub open spec fn peer_label(peer: PeerRecord) -> Seq<char> {
    peer.name@ + " ("@ + id_head(peer.session_id@) + ")"@
}

/// The matching peers, named one after the other.
pub open spec fn peer_labels(peers: Seq<PeerRecord>) -> Seq<char>
    decreases peers.len(),
{
    if peers.len() == 0 {
        Seq::empty()
    } else if peers.len() == 1 {
        peer_label(peers[0])
    } else {
        peer_labels(peers.drop_last()) + ", "@ + peer_label(peers.last())
    }
}

/// The peer that a message addressed to `key` goes to, or the report when there
/// is none or more than one.
pub open spec fn route(live: Seq<PeerRecord>, from_session_id: Seq<char>, key: Seq<char>) -> Result<
    PeerRecord,
    SendReport,
> {
    let found = candidates(live, from_session_id, key);
    if found.len() == 0 {
        Err(
            unreachable_report(
                key,
                ""@,
                "No live peer named '"@ + key + "'. Run list_peers to see reachable sessions."@,
            ),
        )
    } else if found.len() == 1 {
        Ok(found[0])
    } else {
        Err(
            SendReport {
                status: "ambiguous"@,
                to_name: key,
                to_session_id: ""@,
                detail: "Multiple peers match '"@ + key + "': "@ + peer_labels(found)
                    + ". Address by full session id."@,
            },
        )
    }
}

fn find_candidates(live: &Vec<PeerRecord>, from_session_id: &str, key: &str) -> (r: Vec<PeerRecord>)
    ensures
        r@ == candidates(live@, from_session_id@, key@),
{
    let ghost keep = candidate(from_session_id@, key@);
    let mut out: Vec<PeerRecord> = Vec::new();
    let mut i: usize = 0;
    proof {
        seqs::lemma_filter_empty(live@, keep);
    }
    while i < live.len()
        invariant
            i <= live@.len(),
            keep == candidate(from_session_id@, key@),
            out@ == live@.take(i as int).filter(keep),
        decreases live@.len() - i,
    {
        proof {
            seqs::lemma_filter_take(live@, keep, i as int);
        }
        let p = &live[i];
        if !text::same_text(p.session_id.as_str(), from_session_id) && (text::same_text(
            p.session_id.as_str(),
            key,
        ) || text::eq_ignore_ascii_case(p.name.as_str(), key) || text::ends_with(
            p.session_id.as_str(),
            key,
        )) {
            out.push(p.clone());
        }
        i += 1;
    }
    proof {
        seqs::lemma_filter_empty(live@, keep);
    }
    out
}

fn label_of(peer: &PeerRecord) -> (r: String)
    requires
        head_is_text(peer.session_id@),
    ensures
        r@ == peer_label(*peer),
{
    let id = peer.session_id.as_str();
    let len: usize = id.as_bytes().len();
    let cut: usize = if len < 8 {
        len
    } else {
        8
    };
    let (head, _rest) = id.split_at(cut);
    proof {
        encode_utf8_decode_utf8(head@);
    }
    let mut out = peer.name.clone();
    out.append(" (");
    out.append(head);
    out.append(")");
    out
}

fn labels_of(peers: &Vec<PeerRecord>) -> (r: String)
    requires
        heads_are_text(peers@),
    ensures
        r@ == peer_labels(peers@),
{
    let mut out = String::new();
    let mut i: usize = 0;
    while i < peers.len()
        invariant
            i <= peers@.len(),
            heads_are_text(peers@),
            out@ == peer_labels(peers@.take(i as int)),
        decreases peers@.len() - i,
    {
        let ghost next = peers@.take(i + 1);
        proof {
            assert(next.drop_last() =~= peers@.take(i as int));
            assert(next.last() == peers@[i as int]);
        }
        let label = label_of(&peers[i]);
        if i > 0 {
            out.append(", ");
        }
        out.append(label.as_str());
        proof {
            if i == 0 {
                assert(out@ =~= peer_label(peers@[0]));
                assert(next[0] == peers@[0]);
            }
        }
        i += 1;
    }
    assert(peers@.take(peers@.len() as int) =~= peers@);
    out
}

/// A message from `from_session_id` to `key` can be reported: where several peers
/// answer to `key`, the first eight bytes of each one's session id are text.
pub open spec fn can_report(
    live: Seq<PeerRecord>,
    from_session_id: Seq<char>,
    key: Seq<char>,
) -> bool {
    candidates(live, from_session_id, key).len() > 1 ==> heads_are_text(
        candidates(live, from_session_id, key),
    )
}

/// The peer that a message addressed to `key` goes to, or the outcome when there
/// is none or more than one.
pub fn find_target(live: &Vec<PeerRecord>, from_session_id: &str, key: &str) -> (r: Result<
    PeerRecord,
    PeerSendOutput,
>)
    requires
        can_report(live@, from_session_id@, key@),
    ensures
        match route(live@, from_session_id@, key@) {
            Ok(target) => r == Ok::<PeerRecord, PeerSendOutput>(target),
            Err(report) => r is Err && r->Err_0@ == report,
        },
{
    let found = find_candidates(live, from_session_id, key);
    if found.len() == 0 {
        let mut detail = "No live peer named '".to_owned();
        detail.append(key);
        detail.append("'. Run list_peers to see reachable sessions.");
        return Err(PeerSendOutput::unreachable(key, "", detail));
    }
    if found.len() == 1 {
        return Ok(found[0].clone());
    }
    let mut detail = "Multiple peers match '".to_owned();
    detail.append(key);
    detail.append("': ");
    detail.append(labels_of(&found).as_str());
    detail.append(". Address by full session id.");
    Err(
        PeerSendOutput {
            status: "ambiguous".to_owned(),
            to_name: key.to_owned(),
            to_session_id: "".to_owned(),
            detail,
        },
    )
}

/// True when a message from `from_session_id` to `key` can be reported: unless
/// several of the live peers answer to `key` and one of them has a session id
/// whose first eight bytes end inside a character.
pub fn report_is_possible(live: &Vec<PeerRecord>, from_session_id: &str, key: &str) -> (r: bool)
    ensures
        r == can_report(live@, from_session_id@, key@),
{
    let found = find_candidates(live, from_session_id, key);
    found.len() <= 1 || session_heads_are_text(&found)
}

/// True when the first eight bytes of every session id end between two
/// characters, as they do for every ASCII id.
fn session_heads_are_text(live: &Vec<PeerRecord>) -> (r: bool)
    ensures
        r == heads_are_text(live@),
{
    let mut i: usize = 0;
    while i < live.len()
        invariant
            i <= live@.len(),
            forall|j: int| 0 <= j < i ==> head_is_text((#[trigger] live@[j]).session_id@),
        decreases live@.len() - i,
    {
        let id = live[i].session_id.as_str();
        let len: usize = id.as_bytes().len();
        let cut: usize = if len < 8 {
            len
        } else {
            8
        };
        if !id.is_char_boundary(cut) {
            assert(!head_is_text(live@[i as int].session_id@));
            return false;
        }
        i += 1;
    }
    true
}

// -- Sending ----------------------------------------------------------------

/// The report of a request that is refused before any peer is looked up: a blank
/// or oversized message, or no target.
pub open spec fn refusal(to: Seq<char>, message: Seq<char>) -> Option<SendReport> {
    if text::trimmed(message).len() == 0 {
        Some(unreachable_report(to, ""@, "message must not be blank"@))
    } else if encode_utf8(text::trimmed(message)).len() > MAX_PEER_MESSAGE_LEN {
        Some(unreachable_report(to, ""@, "message exceeds 32 KiB limit"@))
    } else if text::trimmed(to).len() == 0 {
        Some(unreachable_report(""@, ""@, "to must be a peer name or session id"@))
    } else {
        None
    }
}

pub(crate) fn refuse(to: &str, message: &str) -> (r: Option<PeerSendOutput>)
    ensures
        match refusal(to@, message@) {
            Some(report) => r is Some && r->0@ == report,
            None => r is None,
        },
{
    let body = text::trim(message);
    if body.as_str().is_empty() {
        return Some(
            PeerSendOutput::unreachable(to, "", "message must not be blank".to_owned()),
        );
    }
    if body.as_str().as_bytes().len() > MAX_PEER_MESSAGE_LEN {
        return Some(
            PeerSendOutput::unreachable(to, "", "message exceeds 32 KiB limit".to_owned()),
        );
    }
    if text::trim(to).as_str().is_empty() {
        return Some(
            PeerSendOutput::unreachable("", "", "to must be a peer name or session id".to_owned()),
        );
    }
    None
}

/// Delivering `message` to the peer at `path` may end with `report`: `deliver`
/// was handed the path and the envelope that carries the message, and the report
/// tells what came of it.
pub open spec fn delivers<D: FnOnce(&str, &InboxEnvelope) -> Result<(), InboxSendError>>(
    deliver: D,
    from_name: Seq<char>,
    from_session_id: Seq<char>,
    message: Seq<char>,
    target: PeerRecord,
    report: SendReport,
) -> bool {
    exists|path: &str, env: &InboxEnvelope, outcome: Result<(), InboxSendError>|
        {
            &&& #[trigger] deliver.ensures((path, env), outcome)
            &&& path@ == target.inbox_path@
            &&& inbox::carries(*env, from_name, from_session_id, message, Some(from_name))
            &&& report == sent_report(target, outcome)
        }
}

/// Sending to `to` once the live peers are listed may end with `report`.
pub open spec fn sends_given<D: FnOnce(&str, &InboxEnvelope) -> Result<(), InboxSendError>>(
    deliver: D,
    from_name: Seq<char>,
    from_session_id: Seq<char>,
    to: Seq<char>,
    message: Seq<char>,
    listing: Result<Vec<PeerRecord>, String>,
    report: SendReport,
) -> bool {
    let key = text::trimmed(to);
    match listing {
        Err(e) => report == unreachable_report(key, ""@, "Failed to list live peers: "@ + e@),
        Ok(live) => match route(live@, from_session_id, key) {
            Err(refused) => report == refused,
            Ok(target) => delivers(
                deliver,
                from_name,
                from_session_id,
                text::trimmed(message),
                target,
                report,
            ),
        },
    }
}

/// Sending may end with `report`: a refusal comes before any listing, and the
/// rest is decided by what `list_live` and `deliver` return.
pub open spec fn sends<
    L: FnOnce() -> Result<Vec<PeerRecord>, String>,
    D: FnOnce(&str, &InboxEnvelope) -> Result<(), InboxSendError>,
>(
    list_live: L,
    deliver: D,
    from_name: Seq<char>,
    from_session_id: Seq<char>,
    to: Seq<char>,
    message: Seq<char>,
    report: SendReport,
) -> bool {
    match refusal(to, message) {
        Some(refused) => report == refused,
        None => exists|listing: Result<Vec<PeerRecord>, String>|
            #[trigger] list_live.ensures((), listing) && sends_given(
                deliver,
                from_name,
                from_session_id,
                to,
                message,
                listing,
                report,
            ),
    }
}

/// `list_live` may be called, and a message from `from_session_id` to `key` can be
/// reported whatever it lists.
pub open spec fn lists_targets<L: FnOnce() -> Result<Vec<PeerRecord>, String>>(
    list_live: L,
    from_session_id: Seq<char>,
    key: Seq<char>,
) -> bool {
    &&& list_live.requires(())
    &&& forall|live: Vec<PeerRecord>| #[trigger]
        list_live.ensures((), Ok::<Vec<PeerRecord>, String>(live)) ==> can_report(
            live@,
            from_session_id,
            key,
        )
}

/// `deliver` may be called to put `message` into the inbox of `target`.
pub open spec fn takes_message<D: FnOnce(&str, &InboxEnvelope) -> Result<(), InboxSendError>>(
    deliver: D,
    from_name: Seq<char>,
    from_session_id: Seq<char>,
    message: Seq<char>,
    target: PeerRecord,
) -> bool {
    forall|path: &str, env: &InboxEnvelope|
        path@ == target.inbox_path@ && inbox::carries(
            *env,
            from_name,
            from_session_id,
            message,
            Some(from_name),
        ) ==> #[trigger] deliver.requires((path, env))
}

/// `deliver` may be called for the one peer that a message is routed to among the
/// listed ones. Nothing is granted where none or several answer, or where nothing
/// is listed.
pub open spec fn delivers_to_target<
    L: FnOnce() -> Result<Vec<PeerRecord>, String>,
    D: FnOnce(&str, &InboxEnvelope) -> Result<(), InboxSendError>,
>(
    list_live: L,
    deliver: D,
    from_name: Seq<char>,
    from_session_id: Seq<char>,
    to: Seq<char>,
    message: Seq<char>,
) -> bool {
    forall|live: Vec<PeerRecord>|
        {
            &&& #[trigger] list_live.ensures((), Ok::<Vec<PeerRecord>, String>(live))
            &&& route(live@, from_session_id, text::trimmed(to)) is Ok
        } ==> takes_message(
            deliver,
            from_name,
            from_session_id,
            text::trimmed(message),
            route(live@, from_session_id, text::trimmed(to))->Ok_0,
        )
}

/// Validate, resolve `to` against live peers, and deliver. A refused request lists
/// no peers, and only the one peer that `to` is routed to is sent anything.
pub fn send_to_live_peer<
    L: FnOnce() -> Result<Vec<PeerRecord>, String>,
    D: FnOnce(&str, &InboxEnvelope) -> Result<(), InboxSendError>,
>(
    from_name: &str,
    from_session_id: &str,
    to: &str,
    message: &str,
    list_live: L,
    deliver: D,
) -> (r: PeerSendOutput)
    requires
        refusal(to@, message@) is None ==> lists_targets(
            list_live,
            from_session_id@,
            text::trimmed(to@),
        ),
        refusal(to@, message@) is None ==> delivers_to_target(
            list_live,
            deliver,
            from_name@,
            from_session_id@,
            to@,
            message@,
        ),
    ensures
        sends(list_live, deliver, from_name@, from_session_id@, to@, message@, r@),
{
    match refuse(to, message) {
        Some(refused) => return refused,
        None => {},
    }
    let body = text::trim(message);
    let target_key = text::trim(to);
    let listing = list_live();
    let ghost listed = listing;
    assert(list_live.ensures((), listed));
    let live = match listing {
        Ok(live) => live,
        Err(e) => {
            let mut detail = "Failed to list live peers: ".to_owned();
            detail.append(e.as_str());
            return PeerSendOutput::unreachable(target_key.as_str(), "", detail);
        },
    };
    let target = match find_target(&live, from_session_id, target_key.as_str()) {
        Ok(target) => target,
        Err(refused) => return refused,
    };
    let env = plain_envelope(from_name, from_session_id, body.as_str(), Some(from_name));
    assert(list_live.ensures((), Ok::<Vec<PeerRecord>, String>(live)));
    let outcome = deliver(target.inbox_path.as_str(), &env);
    report_of(&target, outcome)
}

// -- Listing ----------------------------------------------------------------

/// The text that a filter looks for; none when the filter is blank.
pub open spec fn wanted_text(filter: Option<Seq<char>>) -> Option<Seq<char>> {
    match filter {
        Some(f) => if text::trimmed(f).len() == 0 {
            None
        } else {
            Some(text::lower(text::trimmed(f)))
        },
        None => None,
    }
}

/// The test that a peer is of another session and that its name or its working
/// directory holds the wanted text, whatever the ASCII case.
pub open spec fn listed_for(self_id: Seq<char>, wanted: Option<Seq<char>>) -> spec_fn(
    PeerRecord,
) -> bool {
    |p: PeerRecord|
        p.session_id@ != self_id && match wanted {
            None => true,
            Some(f) => text::has_text(text::lower(p.name@), f) || text::has_text(
                text::lower(p.cwd@),
                f,
            ),
        }
}

/// The live peers that `self_id` is shown under `filter`.
pub open spec fn shown_peers(
    live: Seq<PeerRecord>,
    self_id: Seq<char>,
    filter: Option<Seq<char>>,
) -> Seq<PeerRecord> {
    live.filter(listed_for(self_id, wanted_text(filter)))
}

/// The peers of `live` that `self_id` is shown under `filter`.
pub fn filter_peers(live: &Vec<PeerRecord>, self_id: &str, filter: Option<&str>) -> (r: Vec<
    PeerRecord,
>)
    ensures
        r@ == shown_peers(live@, self_id@, text::opt_str(filter)),
{
    let wanted: Option<String> = match filter {
        Some(f) => {
            let trimmed = text::trim(f);
            if trimmed.as_str().is_empty() {
                None
            } else {
                Some(text::to_ascii_lowercase(trimmed.as_str()))
            }
        },
        None => None,
    };
    let ghost looked_for = wanted_text(text::opt_str(filter));
    let ghost keep = listed_for(self_id@, looked_for);
    let mut out: Vec<PeerRecord> = Vec::new();
    let mut i: usize = 0;
    proof {
        seqs::lemma_filter_empty(live@, keep);
    }
    while i < live.len()
        invariant
            i <= live@.len(),
            keep == listed_for(self_id@, looked_for),
            match wanted {
                Some(w) => looked_for == Some(w@),
                None => looked_for is None,
            },
            out@ == live@.take(i as int).filter(keep),
        decreases live@.len() - i,
    {
        proof {
            seqs::lemma_filter_take(live@, keep, i as int);
        }
        let p = &live[i];
        let fits: bool = match &wanted {
            None => true,
            Some(f) => text::contains(
                text::to_ascii_lowercase(p.name.as_str()).as_str(),
                f.as_str(),
            ) || text::contains(text::to_ascii_lowercase(p.cwd.as_str()).as_str(), f.as_str()),
        };
        if !text::same_text(p.session_id.as_str(), self_id) && fits {
            out.push(p.clone());
        }
        i += 1;
    }
    proof {
        seqs::lemma_filter_empty(live@, keep);
    }
    out
}

/// Filter live peers for `list_peers` (excludes `self_id`, optional substring).
pub fn list_peers_for<L: FnOnce() -> Result<Vec<PeerRecord>, String>>(
    self_id: &str,
    filter: Option<&str>,
    list_live: L,
) -> (r: Result<Vec<PeerRecord>, String>)
    requires
        list_live.requires(()),
    ensures
        exists|listing: Result<Vec<PeerRecord>, String>| #[trigger]
            list_live.ensures((), listing) && match listing {
                Ok(live) => r is Ok && r->Ok_0@ == shown_peers(
                    live@,
                    self_id@,
                    text::opt_str(filter),
                ),
                Err(e) => r == Err::<Vec<PeerRecord>, String>(e),
            },
{
    let listing = list_live();
    let ghost listed = listing;
    assert(list_live.ensures((), listed));
    match listing {
        Ok(live) => Ok(filter_peers(&live, self_id, filter)),
        Err(e) => Err(e),
    }
}

// -- Laws -------------------------------------------------------------------

/// A message never goes back to the session that sent it, and it only goes to a
/// live peer that answers to the address.
pub proof fn routed_to_a_live_other(
    live: Seq<PeerRecord>,
    from_session_id: Seq<char>,
    key: Seq<char>,
)
    requires
        route(live, from_session_id, key) is Ok,
    ensures
        live.contains(route(live, from_session_id, key)->Ok_0),
        route(live, from_session_id, key)->Ok_0.session_id@ != from_session_id,
        answers_to(route(live, from_session_id, key)->Ok_0, key),
{
    let keep = candidate(from_session_id, key);
    seqs::lemma_filter_members(live, keep);
    let found = candidates(live, from_session_id, key);
    assert(keep(found[0]));
}

/// The one live peer of another session that answers to an address is reached by
/// it. A full session id is such an address, unless another peer bears it as its
/// name or as the end of its own id.
pub proof fn sole_match_is_reached(
    live: Seq<PeerRecord>,
    from_session_id: Seq<char>,
    key: Seq<char>,
    i: int,
)
    requires
        0 <= i < live.len(),
        live[i].session_id@ != from_session_id,
        answers_to(live[i], key),
        forall|j: int|
            0 <= j < live.len() && j != i && (#[trigger] live[j]).session_id@ != from_session_id
                ==> !answers_to(live[j], key),
    ensures
        route(live, from_session_id, key) == Ok::<PeerRecord, SendReport>(live[i]),
{
    let keep = candidate(from_session_id, key);
    seqs::lemma_filter_sole(live, keep, i);
}

/// Nobody answers: the report is `unreachable` and names the address as it was
/// given.
pub proof fn unmatched_is_unreachable(
    live: Seq<PeerRecord>,
    from_session_id: Seq<char>,
    key: Seq<char>,
)
    requires
        forall|j: int|
            0 <= j < live.len() && (#[trigger] live[j]).session_id@ != from_session_id
                ==> !answers_to(live[j], key),
    ensures
        route(live, from_session_id, key) is Err,
        route(live, from_session_id, key)->Err_0.status == "unreachable"@,
        route(live, from_session_id, key)->Err_0.to_name == key,
{
    let keep = candidate(from_session_id, key);
    seqs::lemma_filter_members(live, keep);
    let found = candidates(live, from_session_id, key);
    if found.len() > 0 {
        assert(keep(found[0]));
        assert(live.contains(found[0]));
    }
}

/// A message that is reported as delivered was handed, as it was given but for the
/// white space around it, to the inbox of the one live peer that the report names,
/// and the inbox took it.
pub proof fn delivered_was_handed_over<
    L: FnOnce() -> Result<Vec<PeerRecord>, String>,
    D: FnOnce(&str, &InboxEnvelope) -> Result<(), InboxSendError>,
>(
    list_live: L,
    deliver: D,
    from_name: Seq<char>,
    from_session_id: Seq<char>,
    to: Seq<char>,
    message: Seq<char>,
    report: SendReport,
)
    requires
        sends(list_live, deliver, from_name, from_session_id, to, message, report),
        report.status == "delivered"@,
    ensures
        exists|live: Vec<PeerRecord>, path: &str, env: &InboxEnvelope|
            {
                let target = route(live@, from_session_id, text::trimmed(to));
                &&& #[trigger] list_live.ensures((), Ok::<Vec<PeerRecord>, String>(live))
                &&& target is Ok
                &&& report.to_session_id == target->Ok_0.session_id@
                &&& report.to_name == target->Ok_0.name@
                &&& path@ == target->Ok_0.inbox_path@
                &&& inbox::carries(
                    *env,
                    from_name,
                    from_session_id,
                    text::trimmed(message),
                    Some(from_name),
                )
                &&& #[trigger] deliver.ensures((path, env), Ok::<(), InboxSendError>(()))
            },
{
    reveal_strlit("delivered");
    reveal_strlit("unreachable");
    reveal_strlit("ambiguous");
    assert("delivered"@[0] != "unreachable"@[0]);
    assert("delivered"@[0] != "ambiguous"@[0]);
    let listing = choose|listing: Result<Vec<PeerRecord>, String>| #[trigger]
        list_live.ensures((), listing) && sends_given(
            deliver,
            from_name,
            from_session_id,
            to,
            message,
            listing,
            report,
        );
    let live = listing->Ok_0;
    let target = route(live@, from_session_id, text::trimmed(to))->Ok_0;
    let (path, env, outcome) = choose|
        path: &str,
        env: &InboxEnvelope,
        outcome: Result<(), InboxSendError>,
    |
        {
            &&& #[trigger] deliver.ensures((path, env), outcome)
            &&& path@ == target.inbox_path@
            &&& inbox::carries(
                *env,
                from_name,
                from_session_id,
                text::trimmed(message),
                Some(from_name),
            )
            &&& report == sent_report(target, outcome)
        };
    assert(listing == Ok::<Vec<PeerRecord>, String>(live));
    match outcome {
        Ok(done) => assert(done == ()),
        Err(_) => {},
    }
}

/// A session is never shown to itself, and without a filter it is shown every
/// other live session.
pub proof fn shown_peers_are_the_others(live: Seq<PeerRecord>, self_id: Seq<char>)
    ensures
        shown_peers(live, self_id, None) == registry::without_session(live, self_id),
        forall|i: int, filter: Option<Seq<char>>|
            0 <= i < shown_peers(live, self_id, filter).len() ==> (#[trigger] shown_peers(
                live,
                self_id,
                filter,
            )[i]).session_id@ != self_id,
{
    seqs::lemma_filter_same(
        live,
        listed_for(self_id, wanted_text(None)),
        registry::of_another(self_id),
    );
    assert forall|i: int, filter: Option<Seq<char>>|
        0 <= i < shown_peers(live, self_id, filter).len() implies (#[trigger] shown_peers(
        live,
        self_id,
        filter,
    )[i]).session_id@ != self_id by {
        let keep = listed_for(self_id, wanted_text(filter));
        seqs::lemma_filter_members(live, keep);
        assert(keep(shown_peers(live, self_id, filter)[i]));
    }
}

/// An address is a name as a whole, whatever the ASCII case, or the end of a
/// session id, the whole id among its ends.
pub proof fn addresses_are_names_and_id_ends(peer: PeerRecord, key: Seq<char>)
    ensures
        answers_to(peer, key) <==> text::lower(peer.name@) == text::lower(key) || exists|
            head: Seq<char>,
        | #[trigger] (head + key) == peer.session_id@,
{
    let id = peer.session_id@;
    if key.is_suffix_of(id) {
        let head = id.take(id.len() - key.len());
        assert(head + key =~= id);
    }
    if id == key {
        assert(Seq::<char>::empty() + key =~= id);
    }
    if exists|head: Seq<char>| #[trigger] (head + key) == id {
        let head = choose|head: Seq<char>| #[trigger] (head + key) == id;
        assert(id.subrange(id.len() - key.len(), id.len() as int) =~= key);
    }
}

/// A message addressed by name reaches the peer of that name when no other peer
/// bears the name or has a session id that ends with it. Other names do not
/// matter, however much they resemble it.
pub proof fn name_reaches_its_bearer(
    live: Seq<PeerRecord>,
    from_session_id: Seq<char>,
    key: Seq<char>,
    i: int,
)
    requires
        0 <= i < live.len(),
        live[i].session_id@ != from_session_id,
        text::lower(live[i].name@) == text::lower(key),
        forall|j: int|
            0 <= j < live.len() && j != i && (#[trigger] live[j]).session_id@ != from_session_id
                ==> text::lower(live[j].name@) != text::lower(key) && !key.is_suffix_of(
                live[j].session_id@,
            ),
    ensures
        route(live, from_session_id, key) == Ok::<PeerRecord, SendReport>(live[i]),
{
    lemma_others_do_not_answer(live, from_session_id, key, i);
    sole_match_is_reached(live, from_session_id, key, i);
}

/// A message addressed by the end of a session id, or by the whole id, reaches
/// that session when no other peer bears the text as its name or has it at the
/// end of its own id.
pub proof fn id_end_reaches_its_session(
    live: Seq<PeerRecord>,
    from_session_id: Seq<char>,
    key: Seq<char>,
    i: int,
)
    requires
        0 <= i < live.len(),
        live[i].session_id@ != from_session_id,
        key.is_suffix_of(live[i].session_id@),
        forall|j: int|
            0 <= j < live.len() && j != i && (#[trigger] live[j]).session_id@ != from_session_id
                ==> text::lower(live[j].name@) != text::lower(key) && !key.is_suffix_of(
                live[j].session_id@,
            ),
    ensures
        route(live, from_session_id, key) == Ok::<PeerRecord, SendReport>(live[i]),
{
    lemma_others_do_not_answer(live, from_session_id, key, i);
    sole_match_is_reached(live, from_session_id, key, i);
}

proof fn lemma_others_do_not_answer(
    live: Seq<PeerRecord>,
    from_session_id: Seq<char>,
    key: Seq<char>,
    i: int,
)
    requires
        forall|j: int|
            0 <= j < live.len() && j != i && (#[trigger] live[j]).session_id@ != from_session_id
                ==> text::lower(live[j].name@) != text::lower(key) && !key.is_suffix_of(
                live[j].session_id@,
            ),
    ensures
        forall|j: int|
            0 <= j < live.len() && j != i && (#[trigger] live[j]).session_id@ != from_session_id
                ==> !answers_to(live[j], key),
{
    assert forall|j: int|
        0 <= j < live.len() && j != i && (#[trigger] live[j]).session_id@ != from_session_id implies !answers_to(
        live[j],
        key,
    ) by {
        if live[j].session_id@ == key {
            assert(key.subrange(0, key.len() as int) =~= key);
        }
    }
}

/// A message that is routed goes to a live peer of another session whose name is
/// the address, whatever the ASCII case, or whose session id ends with it.
pub proof fn routed_peer_bears_the_address(
    live: Seq<PeerRecord>,
    from_session_id: Seq<char>,
    key: Seq<char>,
)
    requires
        route(live, from_session_id, key) is Ok,
    ensures
        ({
            let target = route(live, from_session_id, key)->Ok_0;
            &&& exists|i: int| 0 <= i < live.len() && #[trigger] live[i] == target
            &&& target.session_id@ != from_session_id
            &&& text::lower(target.name@) == text::lower(key) || key.is_suffix_of(
                target.session_id@,
            )
        }),
{
    routed_to_a_live_other(live, from_session_id, key);
    let target = route(live, from_session_id, key)->Ok_0;
    let i = choose|i: int| 0 <= i < live.len() && live[i] == target;
    assert(live[i] == target);
    if target.session_id@ == key {
        assert(key.subrange(0, key.len() as int) =~= key);
    }
}

/// Where no other session bears the address as its name or at the end of its id,
/// the report is that there is nobody, and it names the address.
pub proof fn strangers_are_unreachable(
    live: Seq<PeerRecord>,
    from_session_id: Seq<char>,
    key: Seq<char>,
)
    requires
        forall|j: int|
            0 <= j < live.len() && (#[trigger] live[j]).session_id@ != from_session_id
                ==> text::lower(live[j].name@) != text::lower(key) && !key.is_suffix_of(
                live[j].session_id@,
            ),
    ensures
        route(live, from_session_id, key) matches Err(report) && {
            &&& report.status == "unreachable"@
            &&& report.to_name == key
            &&& report.to_session_id.len() == 0
            &&& text::has_text(report.detail, key)
        },
{
    lemma_others_do_not_answer(live, from_session_id, key, -1);
    unmatched_is_unreachable(live, from_session_id, key);
    lemma_nobody_found(live, from_session_id, key);
    reveal_strlit("");
    text::lemma_text_between(
        "No live peer named '"@,
        key,
        "'. Run list_peers to see reachable sessions."@,
    );
}

proof fn lemma_nobody_found(live: Seq<PeerRecord>, from_session_id: Seq<char>, key: Seq<char>)
    requires
        forall|j: int|
            0 <= j < live.len() && (#[trigger] live[j]).session_id@ != from_session_id
                ==> !answers_to(live[j], key),
    ensures
        candidates(live, from_session_id, key).len() == 0,
{
    seqs::lemma_filter_none(live, candidate(from_session_id, key));
}

proof fn lemma_label_stands_in_list(peers: Seq<PeerRecord>, k: int)
    requires
        0 <= k < peers.len(),
    ensures
        text::has_text(peer_labels(peers), peer_label(peers[k])),
    decreases peers.len(),
{
    let label = peer_label(peers[k]);
    let none = Seq::<char>::empty();
    if peers.len() == 1 {
        text::contained_text_stands_between(label, label);
    } else if k == peers.len() - 1 {
        let before = peer_labels(peers.drop_last()) + ", "@;
        text::lemma_text_between(before, label, none);
        assert(before + label + none =~= peer_labels(peers));
    } else {
        lemma_label_stands_in_list(peers.drop_last(), k);
        assert(peers.drop_last()[k] == peers[k]);
        let after = ", "@ + peer_label(peers.last());
        text::lemma_text_within(none, peer_labels(peers.drop_last()), after, label);
        assert(none + peer_labels(peers.drop_last()) + after =~= peer_labels(peers));
    }
}

/// Where two other sessions bear the address, as a name or at the end of an id,
/// nothing is sent: the report is that the address is ambiguous, and every peer
/// that bears it is named there with the head of its session id.
pub proof fn several_bearers_are_ambiguous(
    live: Seq<PeerRecord>,
    from_session_id: Seq<char>,
    key: Seq<char>,
    i: int,
    j: int,
)
    requires
        0 <= i < live.len(),
        0 <= j < live.len(),
        i != j,
        live[i].session_id@ != from_session_id,
        live[j].session_id@ != from_session_id,
        text::lower(live[i].name@) == text::lower(key) || key.is_suffix_of(live[i].session_id@),
        text::lower(live[j].name@) == text::lower(key) || key.is_suffix_of(live[j].session_id@),
    ensures
        route(live, from_session_id, key) matches Err(report) && {
            &&& report.status == "ambiguous"@
            &&& report.to_name == key
            &&& report.to_session_id.len() == 0
            &&& text::has_text(report.detail, key)
            &&& text::has_text(
                report.detail,
                live[i].name@ + " ("@ + id_head(live[i].session_id@) + ")"@,
            )
        },
{
    let keep = candidate(from_session_id, key);
    let found = candidates(live, from_session_id, key);
    let lo = if i < j {
        i
    } else {
        j
    };
    let hi = if i < j {
        j
    } else {
        i
    };
    let a = live.take(lo);
    let b = live.subrange(lo + 1, hi);
    let c = live.skip(hi + 1);
    assert(live =~= a + seq![live[lo]] + b + seq![live[hi]] + c);
    seqs::lemma_filter_add(a + seq![live[lo]] + b + seq![live[hi]], c, keep);
    seqs::lemma_filter_add(a + seq![live[lo]] + b, seq![live[hi]], keep);
    seqs::lemma_filter_add(a + seq![live[lo]], b, keep);
    seqs::lemma_filter_add(a, seq![live[lo]], keep);
    seqs::lemma_filter_all(seq![live[lo]], keep);
    seqs::lemma_filter_all(seq![live[hi]], keep);
    assert(found.len() >= 2);
    seqs::lemma_filter_members(live, keep);
    assert(keep(live[i]));
    assert(found.contains(live[i]));
    let k = choose|k: int| 0 <= k < found.len() && found[k] == live[i];
    lemma_label_stands_in_list(found, k);
    reveal_strlit("");
    let head = "Multiple peers match '"@;
    let end = ". Address by full session id."@;
    text::lemma_text_within(head + key + "': "@, peer_labels(found), end, peer_label(live[i]));
    let after = "': "@ + peer_labels(found) + end;
    text::lemma_text_between(head, key, after);
    assert(head + key + after =~= head + key + "': "@ + peer_labels(found) + end);
}

/// The head of an ASCII session id is its first eight characters, or all of a
/// shorter one.
pub proof fn id_head_is_eight_characters(session_id: Seq<char>)
    requires
        is_ascii_chars(session_id),
    ensures
        session_id.len() <= 8 ==> id_head(session_id) == session_id,
        session_id.len() > 8 ==> id_head(session_id) == session_id.take(8),
{
    is_ascii_chars_encode_utf8(session_id);
    let n = head_len(session_id);
    let head = session_id.take(n);
    assert(is_ascii_chars(head));
    is_ascii_chars_encode_utf8(head);
    assert(encode_utf8(head) =~= encode_utf8(session_id).subrange(0, n)) by {
        assert forall|i: int| 0 <= i < n implies encode_utf8(head)[i] == encode_utf8(
            session_id,
        ).subrange(0, n)[i] by {
            assert(head[i] == session_id[i]);
        }
    }
    encode_utf8_decode_utf8(head);
    if session_id.len() <= 8 {
        assert(head =~= session_id);
    }
}

/// A message is accepted if and only if something is left of it and of its
/// address without the white space around them, and it takes up at most 32 KiB.
/// A refused one is unreachable and names no session.
pub proof fn accepted_messages(to: Seq<char>, message: Seq<char>)
    ensures
        refusal(to, message) is None <==> {
            &&& text::trimmed(message).len() > 0
            &&& encode_utf8(text::trimmed(message)).len() <= 32 * 1024
            &&& text::trimmed(to).len() > 0
        },
        refusal(to, message) matches Some(report) ==> report.status == "unreachable"@
            && report.to_session_id.len() == 0 && report.detail.len() > 0,
        refusal(to, message) matches Some(report) ==> text::trimmed(to).len() > 0 ==> report.to_name
            == to,
{
    reveal_strlit("");
    reveal_strlit("message must not be blank");
    reveal_strlit("message exceeds 32 KiB limit");
    reveal_strlit("to must be a peer name or session id");
}

/// The report of a delivery names the peer it was for, by name and session id; it
/// is a success if and only if the inbox took the message, and otherwise says why.
pub proof fn delivery_is_reported(target: PeerRecord, outcome: Result<(), InboxSendError>)
    ensures
        ({
            let report = sent_report(target, outcome);
            &&& report.to_name == target.name@
            &&& report.to_session_id == target.session_id@
            &&& report.status == "delivered"@ <==> outcome is Ok
            &&& report.status == "unreachable"@ <==> outcome is Err
            &&& text::has_text(report.detail, target.name@)
            &&& outcome matches Err(e) ==> text::has_text(report.detail, e.shown())
        }),
{
    reveal_strlit("delivered");
    reveal_strlit("unreachable");
    assert("delivered"@[0] != "unreachable"@[0]);
    let name = target.name@;
    match outcome {
        Ok(_) => {
            text::lemma_text_between("Message delivered to peer '"@, name, "'."@);
        },
        Err(e) => {
            let head = "Failed to deliver to '"@;
            let after = "': "@ + e.shown();
            text::lemma_text_between(head, name, after);
            assert(head + name + after =~= head + name + "': "@ + e.shown());
            let none = Seq::<char>::empty();
            text::lemma_text_between(head + name + "': "@, e.shown(), none);
            assert(head + name + "': "@ + e.shown() + none =~= head + name + "': "@ + e.shown());
        },
    }
}

/// Under a filter that is not blank, a session is shown the other live sessions
/// whose name or working directory holds the filter, whatever the ASCII case and
/// the white space around it, and no others.
pub proof fn filter_looks_at_name_and_directory(
    live: Seq<PeerRecord>,
    self_id: Seq<char>,
    filter: Seq<char>,
)
    requires
        text::trimmed(filter).len() > 0,
    ensures
        ({
            let shown = shown_peers(live, self_id, Some(filter));
            let wanted = text::lower(text::trimmed(filter));
            &&& forall|i: int|
                0 <= i < live.len() ==> (shown.contains(#[trigger] live[i]) <==> {
                    &&& live[i].session_id@ != self_id
                    &&& text::has_text(text::lower(live[i].name@), wanted) || text::has_text(
                        text::lower(live[i].cwd@),
                        wanted,
                    )
                })
            &&& forall|k: int| 0 <= k < shown.len() ==> live.contains(#[trigger] shown[k])
        }),
{
    let keep = listed_for(self_id, wanted_text(Some(filter)));
    seqs::lemma_filter_members(live, keep);
    let shown = shown_peers(live, self_id, Some(filter));
    assert forall|i: int| 0 <= i < live.len() implies (shown.contains(#[trigger] live[i])
        <==> keep(live[i])) by {
        if shown.contains(live[i]) {
            let k = choose|k: int| 0 <= k < shown.len() && shown[k] == live[i];
            assert(keep(shown[k]));
        }
    }
}

/// A peer is found by its own name, and by any part of its name or directory that
/// is not blank.
pub proof fn peer_is_found_by_its_name(
    live: Seq<PeerRecord>,
    self_id: Seq<char>,
    filter: Seq<char>,
    i: int,
)
    requires
        0 <= i < live.len(),
        live[i].session_id@ != self_id,
        text::trimmed(filter).len() > 0,
        exists|a: Seq<char>, b: Seq<char>|
            live[i].name@ == #[trigger] (a + text::trimmed(filter) + b) || live[i].cwd@ == (a
                + text::trimmed(filter) + b),
    ensures
        shown_peers(live, self_id, Some(filter)).contains(live[i]),
{
    filter_looks_at_name_and_directory(live, self_id, filter);
    let f = text::trimmed(filter);
    let (a, b) = choose|a: Seq<char>, b: Seq<char>|
        live[i].name@ == #[trigger] (a + f + b) || live[i].cwd@ == (a + f + b);
    text::lemma_lower_add(a + f, b);
    text::lemma_lower_add(a, f);
    text::lemma_text_between(text::lower(a), text::lower(f), text::lower(b));
}

/// Peers are shown in the order in which they are listed, each as often as it is
/// listed, and a blank filter is none.
pub proof fn peers_are_shown_in_order(
    a: Seq<PeerRecord>,
    b: Seq<PeerRecord>,
    self_id: Seq<char>,
    filter: Option<Seq<char>>,
)
    ensures
        shown_peers(a + b, self_id, filter) == shown_peers(a, self_id, filter) + shown_peers(
            b,
            self_id,
            filter,
        ),
        (filter matches Some(f) ==> text::trimmed(f).len() == 0) ==> shown_peers(a, self_id, filter)
            == shown_peers(a, self_id, None),
        (forall|i: int| 0 <= i < a.len() ==> (#[trigger] a[i]).session_id@ != self_id)
            ==> shown_peers(a, self_id, None) == a,
{
    let keep = listed_for(self_id, wanted_text(filter));
    seqs::lemma_filter_add(a, b, keep);
    let every = listed_for(self_id, wanted_text(None));
    if forall|i: int| 0 <= i < a.len() ==> (#[trigger] a[i]).session_id@ != self_id {
        seqs::lemma_filter_all(a, every);
    }
}

/// Once the peers are listed, an accepted message to an address that is routed is
/// handed, with the white space around it gone, to the inbox of that peer, in an
/// envelope that names the sender by name and session id and asks for replies
/// under its name. What the inbox says decides the report.
pub proof fn routed_message_is_handed_over<
    D: FnOnce(&str, &InboxEnvelope) -> Result<(), InboxSendError>,
>(
    deliver: D,
    from_name: Seq<char>,
    from_session_id: Seq<char>,
    to: Seq<char>,
    message: Seq<char>,
    live: Vec<PeerRecord>,
    report: SendReport,
)
    requires
        sends_given(
            deliver,
            from_name,
            from_session_id,
            to,
            message,
            Ok::<Vec<PeerRecord>, String>(live),
            report,
        ),
        route(live@, from_session_id, text::trimmed(to)) is Ok,
    ensures
        ({
            let target = route(live@, from_session_id, text::trimmed(to))->Ok_0;
            exists|path: &str, env: &InboxEnvelope, outcome: Result<(), InboxSendError>|
                {
                    &&& #[trigger] deliver.ensures((path, env), outcome)
                    &&& path@ == target.inbox_path@
                    &&& env.from_name@ == from_name
                    &&& env.from_session_id@ == from_session_id
                    &&& env.message@ == text::trimmed(message)
                    &&& env.reply_to matches Some(reply) && reply@ == from_name
                    &&& report.to_session_id == target.session_id@
                    &&& report.status == "delivered"@ <==> outcome is Ok
                }
        }),
{
    let target = route(live@, from_session_id, text::trimmed(to))->Ok_0;
    let (path, env, outcome) = choose|
        path: &str,
        env: &InboxEnvelope,
        outcome: Result<(), InboxSendError>,
    |
        {
            &&& #[trigger] deliver.ensures((path, env), outcome)
            &&& path@ == target.inbox_path@
            &&& inbox::carries(
                *env,
                from_name,
                from_session_id,
                text::trimmed(message),
                Some(from_name),
            )
            &&& report == sent_report(target, outcome)
        };
    delivery_is_reported(target, outcome);
}

/// Where the live peers cannot be listed, the message is unreachable, and the report
/// says why; the address stands for the name of the peer.
pub proof fn failed_listing_is_reported<
    D: FnOnce(&str, &InboxEnvelope) -> Result<(), InboxSendError>,
>(
    deliver: D,
    from_name: Seq<char>,
    from_session_id: Seq<char>,
    to: Seq<char>,
    message: Seq<char>,
    e: String,
    report: SendReport,
)
    requires
        sends_given(
            deliver,
            from_name,
            from_session_id,
            to,
            message,
            Err::<Vec<PeerRecord>, String>(e),
            report,
        ),
    ensures
        report.status == "unreachable"@,
        report.to_name == text::trimmed(to),
        report.to_session_id.len() == 0,
        e@.is_suffix_of(report.detail),
{
    reveal_strlit("");
    let m = "Failed to list live peers: "@ + e@;
    assert(m.subrange(m.len() - e@.len(), m.len() as int) =~= e@);
}

}
