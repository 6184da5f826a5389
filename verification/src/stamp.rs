//! Last-send stamp so a Cursor seat can skip auto-relay after `send_message`.

use vstd::prelude::*;

use crate::clock::unix_now_ms;
use crate::paths;
use crate::text;

verus! {

/// Recorded after a successful MCP (or tool) send from a seat session.
#[derive(Debug, PartialEq, Eq)]
pub struct LastSendStamp {
    pub to: String,
    pub to_name: String,
    pub to_session_id: String,
    pub at_unix_ms: i64,
}

impl Clone for LastSendStamp {
    fn clone(&self) -> (r: Self)
        ensures
            r == *self,
    {
        LastSendStamp {
            to: self.to.clone(),
            to_name: self.to_name.clone(),
            to_session_id: self.to_session_id.clone(),
            at_unix_ms: self.at_unix_ms,
        }
    }
}

/// What stands in the stamp file of a session.
#[derive(Debug, PartialEq, Eq)]
pub enum StampSlot {
    /// No file, or none that can be read.
    Missing,
    /// A file that holds no stamp.
    Corrupt,
    /// The stamp of the last send.
    Stamped(LastSendStamp),
}

// -- Paths ------------------------------------------------------------------

/// The stamp file of a session.
pub fn stamp_path_in(root: &str, session_id: &str) -> (r: String)
    ensures
        r@ == paths::session_file(root@, session_id@, ".last-send.json"@),
{
    proof {
        reveal_strlit(".last-send.json");
    }
    paths::session_file_in(root, session_id, ".last-send.json")
}

/// The file that a stamp is written to before it takes the place of the old one.
pub fn stamp_tmp_path_in(root: &str, session_id: &str) -> (r: String)
    ensures
        r@ == paths::session_file(root@, session_id@, ".last-send.last-send.json.tmp"@),
{
    proof {
        reveal_strlit(".last-send.last-send.json.tmp");
    }
    paths::session_file_in(root, session_id, ".last-send.last-send.json.tmp")
}

// -- Recording --------------------------------------------------------------

/// `stamp` tells of a send to `to` at `at`.
pub open spec fn tells_of(
    stamp: LastSendStamp,
    to: Seq<char>,
    to_name: Seq<char>,
    to_session_id: Seq<char>,
    at: i64,
) -> bool {
    &&& stamp.to@ == to
    &&& stamp.to_name@ == to_name
    &&& stamp.to_session_id@ == to_session_id
    &&& stamp.at_unix_ms == at
}

/// Recording a send turns `before` into `after`: a session without an id leaves
/// no stamp, any other replaces whatever stood there.
pub open spec fn records(
    before: StampSlot,
    after: StampSlot,
    session_id: Seq<char>,
    to: Seq<char>,
    to_name: Seq<char>,
    to_session_id: Seq<char>,
    at: i64,
) -> bool {
    if session_id.len() == 0 {
        after == before
    } else {
        after matches StampSlot::Stamped(stamp) && tells_of(stamp, to, to_name, to_session_id, at)
    }
}

/// Write a last-send stamp for `session_id`.
pub fn record_last_send_in(
    slot: &mut StampSlot,
    session_id: &str,
    to: &str,
    to_name: &str,
    to_session_id: &str,
    at_unix_ms: i64,
)
    ensures
        records(
            *old(slot),
            *final(slot),
            session_id@,
            to@,
            to_name@,
            to_session_id@,
            at_unix_ms,
        ),
{
    if session_id.is_empty() {
        return ;
    }
    *slot = StampSlot::Stamped(
        LastSendStamp {
            to: to.to_owned(),
            to_name: to_name.to_owned(),
            to_session_id: to_session_id.to_owned(),
            at_unix_ms,
        },
    );
}

/// Write a last-send stamp for `session_id` with the time of now.
pub fn record_last_send(
    slot: &mut StampSlot,
    session_id: &str,
    to: &str,
    to_name: &str,
    to_session_id: &str,
)
    ensures
        exists|at: i64|
            #[trigger] records(
                *old(slot),
                *final(slot),
                session_id@,
                to@,
                to_name@,
                to_session_id@,
                at,
            ),
{
    let at = unix_now_ms();
    record_last_send_in(slot, session_id, to, to_name, to_session_id, at);
}

// -- Consuming --------------------------------------------------------------

/// `stamp` tells of a send to `reply_to` at or after `not_before_ms`.
pub open spec fn stamp_matches(
    stamp: LastSendStamp,
    reply_to: Seq<char>,
    not_before_ms: i64,
) -> bool {
    &&& stamp.at_unix_ms >= not_before_ms
    &&& text::lower(stamp.to@) == text::lower(reply_to) || text::lower(stamp.to_name@)
        == text::lower(reply_to) || stamp.to_session_id@ == reply_to
}

/// Whether the slot holds a stamp that answers the question.
pub open spec fn slot_matches(
    slot: StampSlot,
    session_id: Seq<char>,
    reply_to: Seq<char>,
    not_before_ms: i64,
) -> bool {
    &&& session_id.len() > 0
    &&& reply_to.len() > 0
    &&& slot matches StampSlot::Stamped(stamp) && stamp_matches(stamp, reply_to, not_before_ms)
}

/// What is left in the slot once it was asked: a stamp that matched is gone, and
/// so is a file that holds none; anything else stays.
pub open spec fn slot_after(
    slot: StampSlot,
    session_id: Seq<char>,
    reply_to: Seq<char>,
    not_before_ms: i64,
) -> StampSlot {
    if session_id.len() == 0 || reply_to.len() == 0 {
        slot
    } else if slot is Corrupt || slot_matches(slot, session_id, reply_to, not_before_ms) {
        StampSlot::Missing
    } else {
        slot
    }
}

/// If this session sent to `reply_to` at or after `not_before_ms`, consume the
/// stamp.
pub fn consume_last_send_if_matches_in(
    slot: &mut StampSlot,
    session_id: &str,
    reply_to: &str,
    not_before_ms: i64,
) -> (r: bool)
    ensures
        r == slot_matches(*old(slot), session_id@, reply_to@, not_before_ms),
        *final(slot) == slot_after(*old(slot), session_id@, reply_to@, not_before_ms),
{
    if session_id.is_empty() || reply_to.is_empty() {
        return false;
    }
    let matched: bool = match &*slot {
        StampSlot::Missing => return false,
        StampSlot::Corrupt => false,
        StampSlot::Stamped(stamp) => {
            let fits: bool = stamp.at_unix_ms >= not_before_ms && (text::eq_ignore_ascii_case(
                stamp.to.as_str(),
                reply_to,
            ) || text::eq_ignore_ascii_case(stamp.to_name.as_str(), reply_to) || text::same_text(
                stamp.to_session_id.as_str(),
                reply_to,
            ));
            if !fits {
                return false;
            }
            fits
        },
    };
    *slot = StampSlot::Missing;
    matched
}

/// A non-empty reply address, a reply that is not blank, and no matching send.
pub open spec fn relays(reply_to: Option<Seq<char>>, reply: Seq<char>, stamp_matched: bool) -> bool {
    &&& reply_to matches Some(s) && s.len() > 0
    &&& text::trimmed(reply).len() > 0
    &&& !stamp_matched
}

/// True when a non-empty reply should be auto-relayed (no matching MCP send).
pub fn should_fallback_relay(reply_to: Option<&str>, reply: &str, stamp_matched: bool) -> (r: bool)
    ensures
        r == relays(
            text::opt_str(reply_to),
            reply@,
            stamp_matched,
        ),
{
    let addressed: bool = match reply_to {
        Some(s) => !s.is_empty(),
        None => false,
    };
    addressed && !text::trim(reply).as_str().is_empty() && !stamp_matched
}

// -- Laws -------------------------------------------------------------------

/// A recorded send answers for its target, under the address it was sent to, the
/// target's name and the target's session id, from any time up to its own.
pub proof fn recorded_send_matches(
    before: StampSlot,
    after: StampSlot,
    session_id: Seq<char>,
    to: Seq<char>,
    to_name: Seq<char>,
    to_session_id: Seq<char>,
    at: i64,
    reply_to: Seq<char>,
    not_before_ms: i64,
)
    requires
        session_id.len() > 0,
        records(before, after, session_id, to, to_name, to_session_id, at),
        reply_to.len() > 0,
        reply_to == to || reply_to == to_name || reply_to == to_session_id,
    ensures
        slot_matches(after, session_id, reply_to, not_before_ms) <==> not_before_ms <= at,
{
}

/// A stamp is consumed at most once: after a match nothing matches any more.
pub proof fn stamp_is_consumed_once(
    slot: StampSlot,
    session_id: Seq<char>,
    reply_to: Seq<char>,
    not_before_ms: i64,
    again_to: Seq<char>,
    again_ms: i64,
)
    requires
        slot_matches(slot, session_id, reply_to, not_before_ms),
    ensures
        !slot_matches(
            slot_after(slot, session_id, reply_to, not_before_ms),
            session_id,
            again_to,
            again_ms,
        ),
{
}

/// A stamp that did not match stays for the next question.
pub proof fn unmatched_stamp_stays(
    slot: StampSlot,
    session_id: Seq<char>,
    reply_to: Seq<char>,
    not_before_ms: i64,
)
    requires
        slot is Stamped,
        !slot_matches(slot, session_id, reply_to, not_before_ms),
    ensures
        slot_after(slot, session_id, reply_to, not_before_ms) == slot,
{
}

/// A seat that answered its peer with `send_message` does not relay the reply as
/// well; a seat that did not, and has something to say, does.
pub proof fn relay_only_without_send(
    slot: StampSlot,
    session_id: Seq<char>,
    reply_to: Seq<char>,
    not_before_ms: i64,
    reply: Seq<char>,
)
    requires
        reply_to.len() > 0,
        text::trimmed(reply).len() > 0,
    ensures
        relays(
            Some(reply_to),
            reply,
            slot_matches(slot, session_id, reply_to, not_before_ms),
        ) <==> !slot_matches(slot, session_id, reply_to, not_before_ms),
{
}

/// A stamp answers for its send only: a reply address that is neither the address
/// of the send nor its target's name, whatever the ASCII case, nor its target's
/// session id, does not match, and neither does a send that came too early.
pub proof fn other_sends_do_not_match(
    stamp: LastSendStamp,
    session_id: Seq<char>,
    reply_to: Seq<char>,
    not_before_ms: i64,
)
    requires
        stamp.at_unix_ms < not_before_ms || (text::lower(reply_to) != text::lower(stamp.to@)
            && text::lower(reply_to) != text::lower(stamp.to_name@) && reply_to
            != stamp.to_session_id@),
    ensures
        !slot_matches(StampSlot::Stamped(stamp), session_id, reply_to, not_before_ms),
{
}

/// A stamp matches under its address and its target's name in any ASCII case, and
/// under its target's session id, from any time up to its own.
pub proof fn sends_match_in_any_case(
    stamp: LastSendStamp,
    session_id: Seq<char>,
    reply_to: Seq<char>,
    not_before_ms: i64,
)
    requires
        session_id.len() > 0,
        reply_to.len() > 0,
        not_before_ms <= stamp.at_unix_ms,
        text::lower(reply_to) == text::lower(stamp.to@) || text::lower(reply_to) == text::lower(
            stamp.to_name@,
        ) || reply_to == stamp.to_session_id@,
    ensures
        slot_matches(StampSlot::Stamped(stamp), session_id, reply_to, not_before_ms),
        slot_after(StampSlot::Stamped(stamp), session_id, reply_to, not_before_ms)
            == StampSlot::Missing,
{
}

/// Without a session id or a reply address nothing matches and nothing is taken; a
/// file that holds no stamp matches nothing and is removed; an empty slot stays.
pub proof fn slots_without_a_stamp(
    slot: StampSlot,
    session_id: Seq<char>,
    reply_to: Seq<char>,
    not_before_ms: i64,
)
    ensures
        session_id.len() == 0 || reply_to.len() == 0 ==> !slot_matches(
            slot,
            session_id,
            reply_to,
            not_before_ms,
        ) && slot_after(slot, session_id, reply_to, not_before_ms) == slot,
        !(slot is Stamped) ==> !slot_matches(slot, session_id, reply_to, not_before_ms),
        session_id.len() > 0 && reply_to.len() > 0 && slot is Corrupt ==> slot_after(
            slot,
            session_id,
            reply_to,
            not_before_ms,
        ) == StampSlot::Missing,
        slot is Missing ==> slot_after(slot, session_id, reply_to, not_before_ms) == slot,
{
}

/// A recorded send is kept word for word, in place of whatever stood there; a
/// session without an id leaves no stamp.
pub proof fn recorded_send_is_kept(
    before: StampSlot,
    after: StampSlot,
    session_id: Seq<char>,
    to: Seq<char>,
    to_name: Seq<char>,
    to_session_id: Seq<char>,
    at: i64,
)
    requires
        records(before, after, session_id, to, to_name, to_session_id, at),
    ensures
        session_id.len() == 0 ==> after == before,
        session_id.len() > 0 ==> (after matches StampSlot::Stamped(stamp) && stamp.to@ == to
            && stamp.to_name@ == to_name && stamp.to_session_id@ == to_session_id
            && stamp.at_unix_ms == at),
{
}

/// A reply is relayed if and only if there is an address, the reply is not blank,
/// and the seat did not send it itself.
pub proof fn replies_are_relayed_once(
    reply_to: Option<Seq<char>>,
    reply: Seq<char>,
    stamp_matched: bool,
)
    ensures
        relays(reply_to, reply, stamp_matched) <==> !stamp_matched && text::trimmed(reply).len() > 0
            && reply_to is Some && reply_to->0.len() > 0,
{
}

}
