//! Peer registry: the list of live sessions and what each operation does to it.

use vstd::prelude::*;

use crate::naming;
use crate::seqs;
use crate::text;

verus! {

/// A point in time: seconds since the Unix epoch and nanoseconds within the
/// second.
#[derive(Debug, Clone, Copy, PartialEq, Eq)]
pub struct Timestamp {
    pub secs: i64,
    pub nanos: u32,
}

/// Live peer advertised for cross-session messaging.
#[derive(Debug, PartialEq, Eq)]
pub struct PeerRecord {
    pub session_id: String,
    pub name: String,
    pub cwd: String,
    pub pid: u32,
    pub inbox_path: String,
    pub updated_at: Timestamp,
    pub note: Option<String>,
}

impl Clone for PeerRecord {
    fn clone(&self) -> (r: Self)
        ensures
            r == *self,
    {
        PeerRecord {
            session_id: self.session_id.clone(),
            name: self.name.clone(),
            cwd: self.cwd.clone(),
            pid: self.pid,
            inbox_path: self.inbox_path.clone(),
            updated_at: self.updated_at,
            note: self.note.clone(),
        }
    }
}

/// Reads `chrono::Utc::now` and splits it into `timestamp` and
/// `timestamp_subsec_nanos`. Only the bounds are claimed: the seconds are not
/// negative, since `now` counts from the epoch (a clock before it makes `now`
/// panic), and the nanoseconds stay within the second. The rest depends on the
/// time.
#[verifier::external_body]
fn utc_now() -> (r: (i64, u32))
    ensures
        r.0 >= 0,
        r.1 < 1_000_000_000,
{
    let now = chrono::Utc::now();
    (now.timestamp(), now.timestamp_subsec_nanos())
}

impl Timestamp {
    /// A time since the Unix epoch.
    pub open spec fn since_epoch(self) -> bool {
        self.secs >= 0 && self.nanos < 1_000_000_000
    }
}

pub(crate) fn now() -> (r: Timestamp)
    ensures
        r.since_epoch(),
{
    let (secs, nanos) = utc_now();
    Timestamp { secs, nanos }
}

// -- Model ------------------------------------------------------------------

/// The process of `pid` is among those found running.
pub open spec fn pid_alive(alive: Seq<u32>, pid: u32) -> bool {
    alive.contains(pid)
}

/// The test that a record is of another session than `session_id`.
pub open spec fn of_another(session_id: Seq<char>) -> spec_fn(PeerRecord) -> bool {
    |p: PeerRecord| p.session_id@ != session_id
}

/// The test that a record's process runs.
pub open spec fn running(alive: Seq<u32>) -> spec_fn(PeerRecord) -> bool {
    |p: PeerRecord| pid_alive(alive, p.pid)
}

/// The test that a record's process runs or that it is of `session_id`.
pub open spec fn running_or_of(alive: Seq<u32>, session_id: Seq<char>) -> spec_fn(PeerRecord) -> bool {
    |p: PeerRecord| pid_alive(alive, p.pid) || p.session_id@ == session_id
}

/// The test that a record's process runs and that it is of another session.
pub open spec fn running_other(alive: Seq<u32>, session_id: Seq<char>) -> spec_fn(PeerRecord) -> bool {
    |p: PeerRecord| p.session_id@ != session_id && pid_alive(alive, p.pid)
}

/// The records of every session but `session_id`.
pub open spec fn without_session(peers: Seq<PeerRecord>, session_id: Seq<char>) -> Seq<PeerRecord> {
    peers.filter(of_another(session_id))
}

/// The records whose process runs.
pub open spec fn live_peers(peers: Seq<PeerRecord>, alive: Seq<u32>) -> Seq<PeerRecord> {
    peers.filter(running(alive))
}

/// The records whose process runs, and those of `session_id`.
pub open spec fn live_or_session(
    peers: Seq<PeerRecord>,
    alive: Seq<u32>,
    session_id: Seq<char>,
) -> Seq<PeerRecord> {
    peers.filter(running_or_of(alive, session_id))
}

/// The live records of sessions other than `session_id`.
pub open spec fn live_others(
    peers: Seq<PeerRecord>,
    alive: Seq<u32>,
    session_id: Seq<char>,
) -> Seq<PeerRecord> {
    peers.filter(running_other(alive, session_id))
}

/// The names that `session_id` must not take.
pub open spec fn taken_names(
    peers: Seq<PeerRecord>,
    alive: Seq<u32>,
    session_id: Seq<char>,
) -> Seq<String> {
    live_others(peers, alive, session_id).map_values(|p: PeerRecord| p.name)
}

/// `r` is `p` but for the name and the time of the change.
pub open spec fn renamed(p: PeerRecord, r: PeerRecord) -> bool {
    &&& r.session_id == p.session_id
    &&& r.cwd == p.cwd
    &&& r.pid == p.pid
    &&& r.inbox_path == p.inbox_path
    &&& r.note == p.note
    &&& r.updated_at.since_epoch()
}

/// `r` is `p` but for the note and the time of the change.
pub open spec fn renoted(p: PeerRecord, r: PeerRecord) -> bool {
    &&& r.session_id == p.session_id
    &&& r.name == p.name
    &&& r.cwd == p.cwd
    &&& r.pid == p.pid
    &&& r.inbox_path == p.inbox_path
    &&& r.updated_at.since_epoch()
}

/// Registering `peer` turns `before` into `after` and yields `r`: the session's
/// earlier records are gone, its new record stands last, and its name is the one
/// allocated beside the live names of the other sessions.
pub open spec fn registers(
    before: Seq<PeerRecord>,
    peer: PeerRecord,
    alive: Seq<u32>,
    after: Seq<PeerRecord>,
    r: PeerRecord,
) -> bool {
    &&& renamed(peer, r)
    &&& naming::live_name_for(
        naming::sanitized(peer.name@),
        taken_names(before, alive, peer.session_id@),
        r.name@,
    )
    &&& after == without_session(before, peer.session_id@).push(r)
}

/// `i` is the place of the first record of `session_id`.
pub open spec fn first_of_session(peers: Seq<PeerRecord>, session_id: Seq<char>, i: int) -> bool {
    &&& 0 <= i < peers.len()
    &&& peers[i].session_id@ == session_id
    &&& forall|j: int| 0 <= j < i ==> (#[trigger] peers[j]).session_id@ != session_id
}

/// A record of `session_id` stands in `peers`.
pub open spec fn has_session(peers: Seq<PeerRecord>, session_id: Seq<char>) -> bool {
    exists|i: int| 0 <= i < peers.len() && (#[trigger] peers[i]).session_id@ == session_id
}

// -- Errors -----------------------------------------------------------------

/// Why a registry operation was refused.
#[derive(Debug, Clone, Copy, PartialEq, Eq, Structural)]
pub enum RegistryError {
    /// Nothing is left of the name once it is sanitized.
    EmptyName,
}

impl RegistryError {
    /// The message shown for the error.
    pub fn message(&self) -> (r: String)
        ensures
            r@ == "peer name must not be empty"@,
    {
        "peer name must not be empty".to_owned()
    }
}

// -- Helpers ----------------------------------------------------------------

fn contains_pid(alive: &Vec<u32>, pid: u32) -> (r: bool)
    ensures
        r == pid_alive(alive@, pid),
{
    let mut i: usize = 0;
    while i < alive.len()
        invariant
            i <= alive@.len(),
            forall|j: int| 0 <= j < i ==> alive@[j] != pid,
        decreases alive@.len() - i,
    {
        if alive[i] == pid {
            return true;
        }
        i += 1;
    }
    false
}

fn keep_others(peers: &Vec<PeerRecord>, session_id: &str) -> (r: Vec<PeerRecord>)
    ensures
        r@ == without_session(peers@, session_id@),
{
    let ghost keep = of_another(session_id@);
    let mut out: Vec<PeerRecord> = Vec::new();
    let mut i: usize = 0;
    proof {
        seqs::lemma_filter_empty(peers@, keep);
    }
    while i < peers.len()
        invariant
            i <= peers@.len(),
            keep == of_another(session_id@),
            out@ == peers@.take(i as int).filter(keep),
        decreases peers@.len() - i,
    {
        proof {
            seqs::lemma_filter_take(peers@, keep, i as int);
        }
        if !text::same_text(peers[i].session_id.as_str(), session_id) {
            out.push(peers[i].clone());
        }
        i += 1;
    }
    proof {
        seqs::lemma_filter_empty(peers@, keep);
    }
    out
}

fn keep_live(peers: &Vec<PeerRecord>, alive: &Vec<u32>) -> (r: Vec<PeerRecord>)
    ensures
        r@ == live_peers(peers@, alive@),
{
    let ghost keep = running(alive@);
    let mut out: Vec<PeerRecord> = Vec::new();
    let mut i: usize = 0;
    proof {
        seqs::lemma_filter_empty(peers@, keep);
    }
    while i < peers.len()
        invariant
            i <= peers@.len(),
            keep == running(alive@),
            out@ == peers@.take(i as int).filter(keep),
        decreases peers@.len() - i,
    {
        proof {
            seqs::lemma_filter_take(peers@, keep, i as int);
        }
        if contains_pid(alive, peers[i].pid) {
            out.push(peers[i].clone());
        }
        i += 1;
    }
    proof {
        seqs::lemma_filter_empty(peers@, keep);
    }
    out
}

fn keep_live_or_session(
    peers: &Vec<PeerRecord>,
    alive: &Vec<u32>,
    session_id: &str,
) -> (r: Vec<PeerRecord>)
    ensures
        r@ == live_or_session(peers@, alive@, session_id@),
{
    let ghost keep = running_or_of(alive@, session_id@);
    let mut out: Vec<PeerRecord> = Vec::new();
    let mut i: usize = 0;
    proof {
        seqs::lemma_filter_empty(peers@, keep);
    }
    while i < peers.len()
        invariant
            i <= peers@.len(),
            keep == running_or_of(alive@, session_id@),
            out@ == peers@.take(i as int).filter(keep),
        decreases peers@.len() - i,
    {
        proof {
            seqs::lemma_filter_take(peers@, keep, i as int);
        }
        if contains_pid(alive, peers[i].pid) || text::same_text(
            peers[i].session_id.as_str(),
            session_id,
        ) {
            out.push(peers[i].clone());
        }
        i += 1;
    }
    proof {
        seqs::lemma_filter_empty(peers@, keep);
    }
    out
}

fn names_of_live_others(
    peers: &Vec<PeerRecord>,
    alive: &Vec<u32>,
    session_id: &str,
) -> (r: Vec<String>)
    ensures
        r@ == taken_names(peers@, alive@, session_id@),
{
    let ghost keep = running_other(alive@, session_id@);
    let ghost name_of = |p: PeerRecord| p.name;
    let mut out: Vec<String> = Vec::new();
    let mut i: usize = 0;
    proof {
        seqs::lemma_filter_empty(peers@, keep);
    }
    while i < peers.len()
        invariant
            i <= peers@.len(),
            keep == running_other(alive@, session_id@),
            name_of == (|p: PeerRecord| p.name),
            out@ == peers@.take(i as int).filter(keep).map_values(name_of),
        decreases peers@.len() - i,
    {
        proof {
            seqs::lemma_filter_take(peers@, keep, i as int);
        }
        if !text::same_text(peers[i].session_id.as_str(), session_id) && contains_pid(
            alive,
            peers[i].pid,
        ) {
            out.push(peers[i].name.clone());
        }
        i += 1;
        assert(out@ =~= peers@.take(i as int).filter(keep).map_values(name_of));
    }
    proof {
        seqs::lemma_filter_empty(peers@, keep);
    }
    out
}

fn position_of(peers: &Vec<PeerRecord>, session_id: &str) -> (r: Option<usize>)
    ensures
        r matches Some(i) ==> first_of_session(peers@, session_id@, i as int),
        r is None <==> !has_session(peers@, session_id@),
{
    let mut i: usize = 0;
    while i < peers.len()
        invariant
            i <= peers@.len(),
            forall|j: int| 0 <= j < i ==> (#[trigger] peers@[j]).session_id@ != session_id@,
        decreases peers@.len() - i,
    {
        if text::same_text(peers[i].session_id.as_str(), session_id) {
            return Some(i);
        }
        i += 1;
    }
    None
}

// -- Operations -------------------------------------------------------------

/// Add `peer` to the registry under a name that no other live session bears.
pub fn register_in(peers: &mut Vec<PeerRecord>, peer: PeerRecord, alive: &Vec<u32>) -> (r: Result<
    PeerRecord,
    RegistryError,
>)
    ensures
        naming::sanitized(peer.name@).len() == 0 ==> r == Err::<PeerRecord, RegistryError>(
            RegistryError::EmptyName,
        ) && final(peers)@ == old(peers)@,
        naming::sanitized(peer.name@).len() > 0 ==> (r matches Ok(rec) && registers(
            old(peers)@,
            peer,
            alive@,
            final(peers)@,
            rec,
        )),
{
    let sanitized = naming::sanitize_peer_name(peer.name.as_str());
    if sanitized.as_str().is_empty() {
        return Err(RegistryError::EmptyName);
    }
    let taken = names_of_live_others(peers, alive, peer.session_id.as_str());
    let mut record = peer;
    record.name = naming::allocate_live_name(sanitized.as_str(), &taken);
    record.updated_at = now();
    let mut kept = keep_others(peers, record.session_id.as_str());
    kept.push(record.clone());
    *peers = kept;
    Ok(record)
}

/// Remove every record of `session_id`.
pub fn unregister_in(peers: &mut Vec<PeerRecord>, session_id: &str)
    ensures
        final(peers)@ == without_session(old(peers)@, session_id@),
{
    let kept = keep_others(peers, session_id);
    *peers = kept;
}

/// Rename the session, dropping the records of processes that are gone.
pub fn update_name_in(
    peers: &mut Vec<PeerRecord>,
    session_id: &str,
    new_name: &str,
    alive: &Vec<u32>,
) -> (r: Result<Option<PeerRecord>, RegistryError>)
    ensures
        naming::sanitized(new_name@).len() == 0 ==> r == Err::<Option<PeerRecord>, RegistryError>(
            RegistryError::EmptyName,
        ) && final(peers)@ == old(peers)@,
        naming::sanitized(new_name@).len() > 0 ==> r is Ok && renames_session(
            old(peers)@,
            session_id@,
            new_name@,
            alive@,
            final(peers)@,
            r->Ok_0,
        ),
{
    let sanitized = naming::sanitize_peer_name(new_name);
    if sanitized.as_str().is_empty() {
        return Err(RegistryError::EmptyName);
    }
    let mut kept = keep_live_or_session(peers, alive, session_id);
    let ghost k = kept@;
    let taken = names_of_live_others(&kept, alive, session_id);
    match position_of(&kept, session_id) {
        None => {
            *peers = kept;
            Ok(None)
        },
        Some(i) => {
            let mut record = kept[i].clone();
            record.name = naming::allocate_live_name(sanitized.as_str(), &taken);
            record.updated_at = now();
            kept.set(i, record.clone());
            assert(first_of_session(k, session_id@, i as int));
            assert(has_session(k, session_id@));
            *peers = kept;
            Ok(Some(record))
        },
    }
}

/// Renaming `session_id` turns `before` into `after` and yields `r`: records of
/// dead processes are dropped, but for the session's own; its first record, if
/// it has one, bears the name allocated beside the live names of the others.
pub open spec fn renames_session(
    before: Seq<PeerRecord>,
    session_id: Seq<char>,
    new_name: Seq<char>,
    alive: Seq<u32>,
    after: Seq<PeerRecord>,
    r: Option<PeerRecord>,
) -> bool {
    let kept = live_or_session(before, alive, session_id);
    match r {
        None => !has_session(kept, session_id) && after == kept,
        Some(rec) => exists|i: int|
            {
                &&& #[trigger] first_of_session(kept, session_id, i)
                &&& renamed(kept[i], rec)
                &&& naming::live_name_for(
                    naming::sanitized(new_name),
                    taken_names(kept, alive, session_id),
                    rec.name@,
                )
                &&& after == kept.update(i, rec)
            },
    }
}

/// Setting the note of `session_id` turns `before` into `after` and yields `r`.
pub open spec fn notes_session(
    before: Seq<PeerRecord>,
    session_id: Seq<char>,
    note: Option<String>,
    after: Seq<PeerRecord>,
    r: Option<PeerRecord>,
) -> bool {
    match r {
        None => !has_session(before, session_id) && after == before,
        Some(rec) => exists|i: int|
            {
                &&& #[trigger] first_of_session(before, session_id, i)
                &&& renoted(before[i], rec)
                &&& rec.note == note
                &&& after == before.update(i, rec)
            },
    }
}

/// Set or clear the note shown beside the session.
pub fn update_note_in(peers: &mut Vec<PeerRecord>, session_id: &str, note: Option<String>) -> (r:
    Option<PeerRecord>)
    ensures
        notes_session(old(peers)@, session_id@, note, final(peers)@, r),
{
    match position_of(peers, session_id) {
        None => None,
        Some(i) => {
            let mut record = peers[i].clone();
            record.note = note;
            record.updated_at = now();
            peers.set(i, record.clone());
            assert(first_of_session(old(peers)@, session_id@, i as int));
            Some(record)
        },
    }
}

/// Drop the records of dead processes and return the rest.
pub fn list_live_in(peers: &mut Vec<PeerRecord>, alive: &Vec<u32>) -> (r: Vec<PeerRecord>)
    ensures
        r@ == live_peers(old(peers)@, alive@),
        final(peers)@ == r@,
{
    let kept = keep_live(peers, alive);
    let alive_now = kept.clone();
    assert(alive_now@ =~= kept@);
    *peers = kept;
    alive_now
}

// -- Liveness ---------------------------------------------------------------

/// What came of sending the null signal to a process.
#[derive(Debug, Clone, Copy, PartialEq, Eq, Structural)]
pub enum SignalOutcome {
    /// The process took it.
    Delivered,
    /// The process exists but belongs to someone else.
    NotPermitted,
    /// There is no such process.
    Failed,
}

/// `pid` is a number that a signal can be sent to.
pub open spec fn signalable(pid: u32) -> bool {
    0 < pid <= i32::MAX
}

/// True when the process `pid` exists: it can be signalled, and the null signal
/// reached it or was refused for want of permission.
pub fn is_pid_alive<F: FnOnce(i32) -> SignalOutcome>(pid: u32, null_signal: F) -> (r: bool)
    requires
        signalable(pid) ==> null_signal.requires((pid as i32,)),
    ensures
        !signalable(pid) ==> !r,
        signalable(pid) ==> exists|o: SignalOutcome|
            #[trigger] null_signal.ensures((pid as i32,), o) && r == (o != SignalOutcome::Failed),
{
    if pid == 0 || pid > 0x7fff_ffff {
        return false;
    }
    let outcome = null_signal(pid as i32);
    match outcome {
        SignalOutcome::Delivered => true,
        SignalOutcome::NotPermitted => true,
        SignalOutcome::Failed => false,
    }
}

// -- Index file -------------------------------------------------------------

/// What was found in place of the index file.
#[derive(Debug)]
pub enum IndexFile {
    /// There is no such file.
    Missing,
    /// The file could not be read, for the given reason.
    Unreadable(String),
    /// The file holds no bytes.
    Empty,
    /// The file does not hold a list of records.
    Corrupt,
    /// The records in the file.
    Records(Vec<PeerRecord>),
}

/// The records to start from: a missing, empty or corrupt index starts empty,
/// an unreadable one is an error.
pub fn read_data_file(file: IndexFile) -> (r: Result<Vec<PeerRecord>, String>)
    ensures
        match file {
            IndexFile::Unreadable(why) => r == Err::<Vec<PeerRecord>, String>(why),
            IndexFile::Records(peers) => r == Ok::<Vec<PeerRecord>, String>(peers),
            _ => r is Ok && r->Ok_0@.len() == 0,
        },
{
    match file {
        IndexFile::Missing => Ok(Vec::new()),
        IndexFile::Unreadable(why) => Err(why),
        IndexFile::Empty => Ok(Vec::new()),
        IndexFile::Corrupt => Ok(Vec::new()),
        IndexFile::Records(peers) => Ok(peers),
    }
}

// -- Laws -------------------------------------------------------------------

/// No session has two records.
pub open spec fn one_record_each(peers: Seq<PeerRecord>) -> bool {
    forall|i: int, j: int|
        0 <= i < j < peers.len() ==> (#[trigger] peers[i]).session_id@ != (
        #[trigger] peers[j]).session_id@
}

/// No two live records bear the same name, whatever the ASCII case.
pub open spec fn live_names_differ(peers: Seq<PeerRecord>, alive: Seq<u32>) -> bool {
    forall|i: int, j: int|
        0 <= i < j < peers.len() && pid_alive(alive, (#[trigger] peers[i]).pid) && pid_alive(
            alive,
            (#[trigger] peers[j]).pid,
        ) ==> text::lower(peers[i].name@) != text::lower(peers[j].name@)
}

proof fn lemma_kept_names_differ(
    peers: Seq<PeerRecord>,
    alive: Seq<u32>,
    keep: spec_fn(PeerRecord) -> bool,
)
    requires
        live_names_differ(peers, alive),
    ensures
        live_names_differ(peers.filter(keep), alive),
{
    let rel = |p: PeerRecord, q: PeerRecord|
        pid_alive(alive, p.pid) && pid_alive(alive, q.pid) ==> text::lower(p.name@) != text::lower(
            q.name@,
        );
    assert forall|i: int, j: int| 0 <= i < j < peers.len() implies rel(
        #[trigger] peers[i],
        #[trigger] peers[j],
    ) by {}
    seqs::lemma_filter_pairs(peers, keep, rel);
    let f = peers.filter(keep);
    assert forall|i: int, j: int|
        0 <= i < j < f.len() && pid_alive(alive, (#[trigger] f[i]).pid) && pid_alive(
            alive,
            (#[trigger] f[j]).pid,
        ) implies text::lower(f[i].name@) != text::lower(f[j].name@) by {
        assert(rel(f[i], f[j]));
    }
}

proof fn lemma_kept_one_record_each(
    peers: Seq<PeerRecord>,
    keep: spec_fn(PeerRecord) -> bool,
)
    requires
        one_record_each(peers),
    ensures
        one_record_each(peers.filter(keep)),
{
    let rel = |p: PeerRecord, q: PeerRecord| p.session_id@ != q.session_id@;
    assert forall|i: int, j: int| 0 <= i < j < peers.len() implies rel(
        #[trigger] peers[i],
        #[trigger] peers[j],
    ) by {}
    seqs::lemma_filter_pairs(peers, keep, rel);
    let f = peers.filter(keep);
    assert forall|i: int, j: int| 0 <= i < j < f.len() implies (#[trigger] f[i]).session_id@ != (
    #[trigger] f[j]).session_id@ by {
        assert(rel(f[i], f[j]));
    }
}

/// A name allocated beside the live others differs from each of theirs.
proof fn lemma_allocated_differs(
    peers: Seq<PeerRecord>,
    alive: Seq<u32>,
    session_id: Seq<char>,
    wanted: Seq<char>,
    name: Seq<char>,
)
    requires
        peers.len() < naming::MAX_NAME_VARIANTS,
        naming::live_name_for(wanted, taken_names(peers, alive, session_id), name),
    ensures
        forall|i: int|
            0 <= i < peers.len() && (#[trigger] peers[i]).session_id@ != session_id && pid_alive(
                alive,
                peers[i].pid,
            ) ==> text::lower(peers[i].name@) != text::lower(name),
{
    let keep = running_other(alive, session_id);
    let others = live_others(peers, alive, session_id);
    let taken = taken_names(peers, alive, session_id);
    seqs::lemma_filter_members(peers, keep);
    naming::live_name_is_free(wanted, taken, name);
    assert forall|i: int|
        0 <= i < peers.len() && (#[trigger] peers[i]).session_id@ != session_id && pid_alive(
            alive,
            peers[i].pid,
        ) implies text::lower(peers[i].name@) != text::lower(name) by {
        assert(keep(peers[i]));
        assert(others.contains(peers[i]));
        let k = choose|k: int| 0 <= k < others.len() && others[k] == peers[i];
        assert(taken[k] == peers[i].name);
    }
}

/// Registering keeps one record for each session, and gives the session one.
pub proof fn register_keeps_one_record_each(
    before: Seq<PeerRecord>,
    peer: PeerRecord,
    alive: Seq<u32>,
    after: Seq<PeerRecord>,
    r: PeerRecord,
)
    requires
        one_record_each(before),
        registers(before, peer, alive, after, r),
    ensures
        one_record_each(after),
        has_session(after, peer.session_id@),
{
    let keep = of_another(peer.session_id@);
    lemma_kept_one_record_each(before, keep);
    seqs::lemma_filter_members(before, keep);
    let others = without_session(before, peer.session_id@);
    assert(after[after.len() - 1].session_id@ == peer.session_id@);
    assert forall|i: int, j: int| 0 <= i < j < after.len() implies (#[trigger] after[i]).session_id@
        != (#[trigger] after[j]).session_id@ by {
        assert(keep(others[i]));
    }
}

/// When two live sessions would share a name, registering gives the newcomer
/// another: live names stay distinct.
pub proof fn register_keeps_live_names_distinct(
    before: Seq<PeerRecord>,
    peer: PeerRecord,
    alive: Seq<u32>,
    after: Seq<PeerRecord>,
    r: PeerRecord,
)
    requires
        live_names_differ(before, alive),
        before.len() < naming::MAX_NAME_VARIANTS,
        registers(before, peer, alive, after, r),
    ensures
        live_names_differ(after, alive),
{
    let keep = of_another(peer.session_id@);
    let others = without_session(before, peer.session_id@);
    lemma_kept_names_differ(before, alive, keep);
    seqs::lemma_filter_members(before, keep);
    lemma_allocated_differs(
        before,
        alive,
        peer.session_id@,
        naming::sanitized(peer.name@),
        r.name@,
    );
    assert forall|i: int, j: int|
        0 <= i < j < after.len() && pid_alive(alive, (#[trigger] after[i]).pid) && pid_alive(
            alive,
            (#[trigger] after[j]).pid,
        ) implies text::lower(after[i].name@) != text::lower(after[j].name@) by {
        assert(after[i] == others[i]);
        if j < others.len() {
            assert(after[j] == others[j]);
        } else {
            assert(keep(others[i]));
            assert(before.contains(others[i]));
            let k = choose|k: int| 0 <= k < before.len() && before[k] == others[i];
            assert(before[k].session_id@ != peer.session_id@);
        }
    }
}

/// Renaming keeps one record for each session and live names distinct.
pub proof fn rename_keeps_live_names_distinct(
    before: Seq<PeerRecord>,
    session_id: Seq<char>,
    new_name: Seq<char>,
    alive: Seq<u32>,
    after: Seq<PeerRecord>,
    r: Option<PeerRecord>,
)
    requires
        one_record_each(before),
        live_names_differ(before, alive),
        before.len() < naming::MAX_NAME_VARIANTS,
        renames_session(before, session_id, new_name, alive, after, r),
    ensures
        one_record_each(after),
        live_names_differ(after, alive),
{
    let keep = running_or_of(alive, session_id);
    let kept = live_or_session(before, alive, session_id);
    lemma_kept_one_record_each(before, keep);
    lemma_kept_names_differ(before, alive, keep);
    seqs::lemma_filter_members(before, keep);
    if r is Some {
        let rec = r->0;
        let at = choose|i: int|
            {
                &&& #[trigger] first_of_session(kept, session_id, i)
                &&& renamed(kept[i], rec)
                &&& naming::live_name_for(
                    naming::sanitized(new_name),
                    taken_names(kept, alive, session_id),
                    rec.name@,
                )
                &&& after == kept.update(i, rec)
            };
        lemma_allocated_differs(kept, alive, session_id, naming::sanitized(new_name), rec.name@);
        assert forall|i: int, j: int| 0 <= i < j < after.len() implies (
        #[trigger] after[i]).session_id@ != (#[trigger] after[j]).session_id@ by {
            assert(kept[i].session_id@ != kept[j].session_id@);
        }
        assert forall|i: int, j: int|
            0 <= i < j < after.len() && pid_alive(alive, (#[trigger] after[i]).pid) && pid_alive(
                alive,
                (#[trigger] after[j]).pid,
            ) implies text::lower(after[i].name@) != text::lower(after[j].name@) by {
            assert(kept[i].session_id@ != kept[j].session_id@);
            if i != at && j != at {
                assert(after[i] == kept[i] && after[j] == kept[j]);
            }
        }
    }
}

/// Unregistering takes back a registration: what is left is what was left of the
/// list without the session.
pub proof fn unregister_undoes_register(
    before: Seq<PeerRecord>,
    peer: PeerRecord,
    alive: Seq<u32>,
    after: Seq<PeerRecord>,
    r: PeerRecord,
)
    requires
        registers(before, peer, alive, after, r),
    ensures
        without_session(after, peer.session_id@) == without_session(before, peer.session_id@),
        !has_session(without_session(after, peer.session_id@), peer.session_id@),
{
    let id = peer.session_id@;
    let keep = of_another(id);
    let others = without_session(before, id);
    seqs::lemma_filter_twice(before, keep, keep);
    seqs::lemma_filter_take(after, keep, others.len() as int);
    assert(after.take(others.len() as int) =~= others);
    assert(after.take(others.len() as int + 1) =~= after);
    seqs::lemma_filter_members(after, keep);
    let left = without_session(after, id);
    assert forall|i: int| 0 <= i < left.len() implies (#[trigger] left[i]).session_id@ != id by {
        assert(keep(left[i]));
    }
}

/// Listing twice is listing once, and leaves no record of a dead process.
pub proof fn listing_is_idempotent(peers: Seq<PeerRecord>, alive: Seq<u32>)
    ensures
        live_peers(live_peers(peers, alive), alive) == live_peers(peers, alive),
        forall|i: int|
            0 <= i < live_peers(peers, alive).len() ==> pid_alive(
                alive,
                (#[trigger] live_peers(peers, alive)[i]).pid,
            ),
{
    let keep = running(alive);
    seqs::lemma_filter_twice(peers, keep, keep);
    seqs::lemma_filter_members(peers, keep);
    let live = live_peers(peers, alive);
    assert forall|i: int| 0 <= i < live.len() implies pid_alive(alive, (#[trigger] live[i]).pid) by {
        assert(keep(live[i]));
    }
}

/// A live session that registered is found when live sessions are listed.
pub proof fn registered_session_is_listed(
    before: Seq<PeerRecord>,
    peer: PeerRecord,
    alive: Seq<u32>,
    after: Seq<PeerRecord>,
    r: PeerRecord,
)
    requires
        registers(before, peer, alive, after, r),
        pid_alive(alive, peer.pid),
    ensures
        live_peers(after, alive).contains(r),
{
    let keep = running(alive);
    seqs::lemma_filter_members(after, keep);
    assert(after[after.len() - 1] == r);
    assert(keep(r));
}

/// Every record whose process runs is listed, and nothing else is; where all of
/// them run, the listing is the index. It keeps the order of the index, and each
/// record as often as it stands there.
pub proof fn listing_holds_every_live_record(
    peers: Seq<PeerRecord>,
    more: Seq<PeerRecord>,
    alive: Seq<u32>,
)
    ensures
        forall|j: int|
            0 <= j < peers.len() ==> (live_peers(peers, alive).contains(#[trigger] peers[j])
                <==> alive.contains(peers[j].pid)),
        forall|i: int|
            0 <= i < live_peers(peers, alive).len() ==> peers.contains(
                #[trigger] live_peers(peers, alive)[i],
            ),
        (forall|j: int| 0 <= j < peers.len() ==> alive.contains((#[trigger] peers[j]).pid))
            ==> live_peers(peers, alive) == peers,
        live_peers(peers + more, alive) == live_peers(peers, alive) + live_peers(more, alive),
{
    let keep = running(alive);
    seqs::lemma_filter_members(peers, keep);
    seqs::lemma_filter_add(peers, more, keep);
    let live = live_peers(peers, alive);
    assert forall|j: int| 0 <= j < peers.len() implies (live.contains(#[trigger] peers[j])
        <==> alive.contains(peers[j].pid)) by {
        if live.contains(peers[j]) {
            let k = choose|k: int| 0 <= k < live.len() && live[k] == peers[j];
            assert(keep(live[k]));
        } else {
            assert(!keep(peers[j]));
        }
    }
    if forall|j: int| 0 <= j < peers.len() ==> alive.contains((#[trigger] peers[j]).pid) {
        seqs::lemma_filter_all(peers, keep);
    }
}

/// Unregistering removes every record of the session and no other: the others
/// keep their order, and a session that is not there changes nothing.
pub proof fn unregister_removes_the_session_only(
    peers: Seq<PeerRecord>,
    more: Seq<PeerRecord>,
    session_id: Seq<char>,
)
    ensures
        forall|j: int|
            0 <= j < peers.len() ==> (without_session(peers, session_id).contains(
                #[trigger] peers[j],
            ) <==> peers[j].session_id@ != session_id),
        forall|i: int|
            0 <= i < without_session(peers, session_id).len() ==> peers.contains(
                #[trigger] without_session(peers, session_id)[i],
            ),
        (forall|j: int| 0 <= j < peers.len() ==> (#[trigger] peers[j]).session_id@ != session_id)
            ==> without_session(peers, session_id) == peers,
        without_session(peers + more, session_id) == without_session(peers, session_id)
            + without_session(more, session_id),
{
    let keep = of_another(session_id);
    seqs::lemma_filter_members(peers, keep);
    seqs::lemma_filter_add(peers, more, keep);
    let left = without_session(peers, session_id);
    assert forall|j: int| 0 <= j < peers.len() implies (left.contains(#[trigger] peers[j])
        <==> peers[j].session_id@ != session_id) by {
        if left.contains(peers[j]) {
            let k = choose|k: int| 0 <= k < left.len() && left[k] == peers[j];
            assert(keep(left[k]));
        } else {
            assert(!keep(peers[j]));
        }
    }
    if forall|j: int| 0 <= j < peers.len() ==> (#[trigger] peers[j]).session_id@ != session_id {
        seqs::lemma_filter_all(peers, keep);
    }
}

/// The names that a session must not take are those of the other sessions whose
/// process runs.
pub proof fn live_names_of_others_are_taken(
    peers: Seq<PeerRecord>,
    alive: Seq<u32>,
    session_id: Seq<char>,
)
    ensures
        forall|j: int|
            0 <= j < peers.len() && (#[trigger] peers[j]).session_id@ != session_id
                && alive.contains(peers[j].pid) ==> taken_names(
                peers,
                alive,
                session_id,
            ).contains(peers[j].name),
        forall|name: String| #[trigger]
            taken_names(peers, alive, session_id).contains(name) ==> exists|j: int|
                {
                    &&& 0 <= j < peers.len()
                    &&& (#[trigger] peers[j]).session_id@ != session_id
                    &&& alive.contains(peers[j].pid)
                    &&& peers[j].name == name
                },
{
    let keep = running_other(alive, session_id);
    let others = live_others(peers, alive, session_id);
    let taken = taken_names(peers, alive, session_id);
    seqs::lemma_filter_members(peers, keep);
    assert forall|j: int|
        0 <= j < peers.len() && (#[trigger] peers[j]).session_id@ != session_id && alive.contains(
            peers[j].pid,
        ) implies taken.contains(peers[j].name) by {
        assert(keep(peers[j]));
        let k = choose|k: int| 0 <= k < others.len() && others[k] == peers[j];
        assert(taken[k] == peers[j].name);
    }
    assert forall|name: String| #[trigger] taken.contains(name) implies exists|j: int|
        {
            &&& 0 <= j < peers.len()
            &&& (#[trigger] peers[j]).session_id@ != session_id
            &&& alive.contains(peers[j].pid)
            &&& peers[j].name == name
        } by {
        let i = choose|i: int| 0 <= i < taken.len() && taken[i] == name;
        assert(keep(others[i]));
        assert(peers.contains(others[i]));
        let j = choose|j: int| 0 <= j < peers.len() && peers[j] == others[i];
        assert(peers[j].name == taken[i]);
    }
}

/// Registering keeps the records of all other sessions as they are and in their
/// order, whether or not they run, and puts the session's record last: with its
/// id, directory, process, inbox and note as given, and with the name it asked
/// for if that is clean and no other live session bears it.
pub proof fn register_keeps_what_was_given(
    before: Seq<PeerRecord>,
    peer: PeerRecord,
    alive: Seq<u32>,
    after: Seq<PeerRecord>,
    r: PeerRecord,
)
    requires
        registers(before, peer, alive, after, r),
    ensures
        after.len() > 0 && after.last() == r,
        after.drop_last() == without_session(before, peer.session_id@),
        r.session_id@ == peer.session_id@,
        r.cwd@ == peer.cwd@,
        r.pid == peer.pid,
        r.inbox_path@ == peer.inbox_path@,
        r.note == peer.note,
        r.name@.len() > 0,
        (naming::clean_name(peer.name@) && peer.name@.len() > 0 && forall|j: int|
            0 <= j < before.len() && (#[trigger] before[j]).session_id@ != peer.session_id@
                && alive.contains(before[j].pid) ==> text::lower(before[j].name@) != text::lower(
                peer.name@,
            )) ==> r.name@ == peer.name@,
{
    assert(after.drop_last() =~= without_session(before, peer.session_id@));
    let taken = taken_names(before, alive, peer.session_id@);
    naming::live_names_are_not_empty(naming::sanitized(peer.name@), taken, r.name@);
    if naming::clean_name(peer.name@) && peer.name@.len() > 0 && forall|j: int|
        0 <= j < before.len() && (#[trigger] before[j]).session_id@ != peer.session_id@
            && alive.contains(before[j].pid) ==> text::lower(before[j].name@) != text::lower(
            peer.name@,
        ) {
        naming::clean_name_is_kept(peer.name@);
        live_names_of_others_are_taken(before, alive, peer.session_id@);
        assert(!naming::name_taken(taken, peer.name@)) by {
            if naming::name_taken(taken, peer.name@) {
                let i = choose|i: int|
                    0 <= i < taken.len() && text::lower(#[trigger] taken[i]@) == text::lower(
                        peer.name@,
                    );
                assert(taken.contains(taken[i]));
                let j = choose|j: int|
                    {
                        &&& 0 <= j < before.len()
                        &&& (#[trigger] before[j]).session_id@ != peer.session_id@
                        &&& alive.contains(before[j].pid)
                        &&& before[j].name == taken[i]
                    };
                assert(text::lower(before[j].name@) != text::lower(peer.name@));
            }
        }
        naming::free_name_is_kept(peer.name@, taken, r.name@);
    }
}

/// Renaming keeps every live record of the other sessions as it is, and of the
/// renamed session everything but its name and the time of the change. A session
/// without a record is not renamed, and every session with one is.
pub proof fn rename_changes_the_name_only(
    before: Seq<PeerRecord>,
    session_id: Seq<char>,
    new_name: Seq<char>,
    alive: Seq<u32>,
    after: Seq<PeerRecord>,
    r: Option<PeerRecord>,
)
    requires
        renames_session(before, session_id, new_name, alive, after, r),
    ensures
        r is Some <==> has_session(before, session_id),
        forall|j: int|
            0 <= j < before.len() && (#[trigger] before[j]).session_id@ != session_id
                && alive.contains(before[j].pid) ==> after.contains(before[j]),
        forall|i: int|
            0 <= i < after.len() && (#[trigger] after[i]).session_id@ != session_id
                ==> before.contains(after[i]) && alive.contains(after[i].pid),
        r matches Some(rec) ==> {
            &&& after.contains(rec)
            &&& rec.session_id@ == session_id
            &&& rec.name@.len() > 0
            &&& exists|j: int|
                {
                    &&& 0 <= j < before.len()
                    &&& (#[trigger] before[j]).session_id@ == session_id
                    &&& rec.cwd == before[j].cwd
                    &&& rec.pid == before[j].pid
                    &&& rec.inbox_path == before[j].inbox_path
                    &&& rec.note == before[j].note
                }
        },
{
    let keep = running_or_of(alive, session_id);
    let kept = live_or_session(before, alive, session_id);
    seqs::lemma_filter_members(before, keep);
    if has_session(before, session_id) {
        let j = choose|j: int| 0 <= j < before.len() && (#[trigger] before[j]).session_id@ == session_id;
        assert(keep(before[j]));
        let k = choose|k: int| 0 <= k < kept.len() && kept[k] == before[j];
        assert(kept[k].session_id@ == session_id);
        assert(has_session(kept, session_id));
    }
    if r is Some {
        let rec = r->0;
        let at = choose|i: int|
            {
                &&& #[trigger] first_of_session(kept, session_id, i)
                &&& renamed(kept[i], rec)
                &&& naming::live_name_for(
                    naming::sanitized(new_name),
                    taken_names(kept, alive, session_id),
                    rec.name@,
                )
                &&& after == kept.update(i, rec)
            };
        naming::live_names_are_not_empty(
            naming::sanitized(new_name),
            taken_names(kept, alive, session_id),
            rec.name@,
        );
        assert(after[at] == rec);
        assert(before.contains(kept[at]));
        let j = choose|j: int| 0 <= j < before.len() && before[j] == kept[at];
        assert(before[j].session_id@ == session_id);
        assert(has_session(before, session_id));
        assert forall|j: int|
            0 <= j < before.len() && (#[trigger] before[j]).session_id@ != session_id
                && alive.contains(before[j].pid) implies after.contains(before[j]) by {
            assert(keep(before[j]));
            let k = choose|k: int| 0 <= k < kept.len() && kept[k] == before[j];
            assert(after[k] == before[j]);
        }
        assert forall|i: int|
            0 <= i < after.len() && (#[trigger] after[i]).session_id@ != session_id implies before.contains(
            after[i],
        ) && alive.contains(after[i].pid) by {
            assert(after[i] == kept[i]);
            assert(keep(kept[i]));
        }
    } else {
        assert forall|j: int|
            0 <= j < before.len() && (#[trigger] before[j]).session_id@ != session_id
                && alive.contains(before[j].pid) implies after.contains(before[j]) by {
            assert(keep(before[j]));
        }
        assert forall|i: int|
            0 <= i < after.len() && (#[trigger] after[i]).session_id@ != session_id implies before.contains(
            after[i],
        ) && alive.contains(after[i].pid) by {
            assert(keep(kept[i]));
        }
    }
}

/// Setting a note changes the note of the session's first record and the time of
/// the change, and nothing else in the index.
pub proof fn note_changes_the_note_only(
    before: Seq<PeerRecord>,
    session_id: Seq<char>,
    note: Option<String>,
    after: Seq<PeerRecord>,
    r: Option<PeerRecord>,
)
    requires
        notes_session(before, session_id, note, after, r),
    ensures
        after.len() == before.len(),
        r is Some <==> exists|j: int|
            0 <= j < before.len() && (#[trigger] before[j]).session_id@ == session_id,
        forall|j: int| 0 <= j < before.len() && (#[trigger] before[j]).session_id@ != session_id
            ==> after[j] == before[j],
        r matches Some(rec) ==> {
            &&& rec.note == note
            &&& rec.session_id@ == session_id
            &&& exists|i: int|
                {
                    &&& 0 <= i < before.len()
                    &&& #[trigger] after[i] == rec
                    &&& rec.name == before[i].name
                    &&& rec.cwd == before[i].cwd
                    &&& rec.pid == before[i].pid
                    &&& rec.inbox_path == before[i].inbox_path
                    &&& forall|j: int|
                        0 <= j < before.len() && j != i ==> #[trigger] after[j] == before[j]
                }
        },
{
    if r is Some {
        let rec = r->0;
        let at = choose|i: int|
            {
                &&& #[trigger] first_of_session(before, session_id, i)
                &&& renoted(before[i], rec)
                &&& rec.note == note
                &&& after == before.update(i, rec)
            };
        assert(before[at].session_id@ == session_id);
        assert(after[at] == rec);
    }
}

/// Only a positive process id that fits in 31 bits can be signalled.
pub proof fn process_ids_are_positive(pid: u32)
    ensures
        signalable(pid) <==> 1 <= pid < 0x8000_0000,
{
}

/// A session that is renamed bears the name it was given, if that is clean and no
/// other session whose process runs bears it, whatever the ASCII case.
pub proof fn rename_takes_a_free_name(
    before: Seq<PeerRecord>,
    session_id: Seq<char>,
    new_name: Seq<char>,
    alive: Seq<u32>,
    after: Seq<PeerRecord>,
    rec: PeerRecord,
)
    requires
        renames_session(before, session_id, new_name, alive, after, Some(rec)),
        naming::clean_name(new_name),
        new_name.len() > 0,
        forall|j: int|
            0 <= j < before.len() && (#[trigger] before[j]).session_id@ != session_id
                && alive.contains(before[j].pid) ==> text::lower(before[j].name@) != text::lower(
                new_name,
            ),
    ensures
        rec.name@ == new_name,
{
    let keep = running_or_of(alive, session_id);
    let kept = live_or_session(before, alive, session_id);
    let taken = taken_names(kept, alive, session_id);
    seqs::lemma_filter_members(before, keep);
    naming::clean_name_is_kept(new_name);
    live_names_of_others_are_taken(kept, alive, session_id);
    if naming::name_taken(taken, new_name) {
        let i = choose|i: int|
            0 <= i < taken.len() && text::lower(#[trigger] taken[i]@) == text::lower(new_name);
        assert(taken.contains(taken[i]));
        let k = choose|k: int|
            {
                &&& 0 <= k < kept.len()
                &&& (#[trigger] kept[k]).session_id@ != session_id
                &&& alive.contains(kept[k].pid)
                &&& kept[k].name == taken[i]
            };
        assert(before.contains(kept[k]));
        let j = choose|j: int| 0 <= j < before.len() && before[j] == kept[k];
        assert(text::lower(before[j].name@) != text::lower(new_name));
    }
    naming::free_name_is_kept(new_name, taken, rec.name@);
}

}
