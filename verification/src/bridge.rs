//! Starting the sidecar: what it is given, what its output means, and what makes
//! it usable.

use vstd::prelude::*;

use crate::error;
use crate::error::CursorSdkError;
use crate::handshake;
use crate::handshake::{parse_ready_line, ReadyInfo};
use crate::text;

verus! {

/// How long the sidecar may take to announce itself, in seconds.
pub const STARTUP_TIMEOUT_SECS: u64 = 30;

/// How long the sidecar may take to shut down, in seconds.
pub const SHUTDOWN_WAIT_SECS: u64 = 5;

/// The protocol that the sidecar must speak.
pub const BRIDGE_PROTOCOL: &'static str = "sdk.v1";

/// The view of some texts in a row.
pub open spec fn views(parts: Seq<String>) -> Seq<Seq<char>> {
    Seq::new(parts.len(), |i: int| parts[i]@)
}

/// The arguments of the sidecar.
pub fn bridge_args(workspace: &str) -> (r: Vec<String>)
    ensures
        views(r@) == seq!["--workspace"@, workspace@],
{
    let mut args: Vec<String> = Vec::new();
    args.push("--workspace".to_owned());
    args.push(workspace.to_owned());
    assert(views(args@) =~= seq!["--workspace"@, workspace@]);
    args
}

/// The environment variables that the sidecar is given beside those it inherits.
pub fn bridge_env(api_key: &str) -> (r: Vec<(String, String)>)
    ensures
        r@.len() == 2,
        r@[0].0@ == "CURSOR_API_KEY"@ && r@[0].1@ == api_key@,
        r@[1].0@ == "CURSOR_SDK_CLIENT_LANGUAGE"@ && r@[1].1@ == "rust"@,
{
    let mut env: Vec<(String, String)> = Vec::new();
    env.push(("CURSOR_API_KEY".to_owned(), api_key.to_owned()));
    env.push(("CURSOR_SDK_CLIENT_LANGUAGE".to_owned(), "rust".to_owned()));
    env
}

/// The error for a sidecar that could not be spawned.
pub fn spawn_error(bin: &str, why: &str) -> (r: CursorSdkError)
    ensures
        error::is_handshake_error(r, "failed to spawn "@ + bin@ + ": "@ + why@),
{
    let mut m = "failed to spawn ".to_owned();
    m.append(bin);
    m.append(": ");
    m.append(why);
    CursorSdkError::Handshake(m)
}

// -- Waiting for the ready line ---------------------------------------------

/// How many bytes of other output are kept, at least, before no more is.
pub const MAX_CAPTURED: usize = 8_192;

/// Watches the lines that the sidecar writes until it announces itself.
pub struct ReadyWatch {
    captured: String,
    decided: bool,
}

impl ReadyWatch {
    /// The other output kept so far.
    pub closed spec fn captured(&self) -> Seq<char> {
        self.captured@
    }

    /// The sidecar announced itself, or tried to.
    pub closed spec fn decided(&self) -> bool {
        self.decided
    }

    /// Nothing was seen.
    pub fn new() -> (r: Self)
        ensures
            r.captured() == ""@,
            !r.decided(),
    {
        ReadyWatch { captured: "".to_owned(), decided: false }
    }

    /// Take in one line without its line feed. The first discovery line decides;
    /// other lines are kept while there is room.
    pub fn on_line<F: FnOnce(&str) -> Result<ReadyInfo, String>>(
        &mut self,
        line: &str,
        decode: F,
    ) -> (r: Option<Result<ReadyInfo, CursorSdkError>>)
        requires
            handshake::decodes(line@, decode),
        ensures
            exists|parsed: Result<Option<ReadyInfo>, CursorSdkError>|
                {
                    &&& #[trigger] handshake::parses(line@, decode, parsed)
                    &&& watch_step(*old(self), *final(self), line@, parsed, r)
                },
    {
        let parsed = parse_ready_line(line, decode);
        let ghost p = parsed;
        assert(handshake::parses(line@, decode, p));
        match parsed {
            Ok(Some(info)) => {
                if self.decided {
                    None
                } else {
                    self.decided = true;
                    Some(Ok(info))
                }
            },
            Ok(None) => {
                if self.captured.as_str().as_bytes().len() < MAX_CAPTURED {
                    self.captured.append(line);
                    self.captured.append("\n");
                }
                None
            },
            Err(e) => {
                if self.decided {
                    None
                } else {
                    self.decided = true;
                    Some(Err(e))
                }
            },
        }
    }

    /// The output ended. A sidecar that never announced itself is an error.
    pub fn on_end(&self) -> (r: Option<CursorSdkError>)
        ensures
            self.decided() ==> r is None,
            !self.decided() ==> r is Some && error::is_handshake_error(
                r->0,
                "bridge exited before ready line. stderr:\n"@ + self.captured(),
            ),
    {
        if self.decided {
            None
        } else {
            Some(
                CursorSdkError::Handshake(
                    "bridge exited before ready line. stderr:\n".to_owned().concat(
                        self.captured.as_str(),
                    ),
                ),
            )
        }
    }
}

/// What a line that parses to `parsed` does to the watch, and what it decides.
pub open spec fn watch_step(
    before: ReadyWatch,
    after: ReadyWatch,
    line: Seq<char>,
    parsed: Result<Option<ReadyInfo>, CursorSdkError>,
    r: Option<Result<ReadyInfo, CursorSdkError>>,
) -> bool {
    match parsed {
        Ok(None) => {
            &&& r is None
            &&& after.decided() == before.decided()
            &&& after.captured() == if vstd::utf8::encode_utf8(before.captured()).len()
                < MAX_CAPTURED {
                before.captured() + line + "\n"@
            } else {
                before.captured()
            }
        },
        Ok(Some(info)) => {
            &&& after.decided()
            &&& after.captured() == before.captured()
            &&& r == if before.decided() {
                None
            } else {
                Some(Ok::<ReadyInfo, CursorSdkError>(info))
            }
        },
        Err(e) => {
            &&& after.decided()
            &&& after.captured() == before.captured()
            &&& r == if before.decided() {
                None
            } else {
                Some(Err::<ReadyInfo, CursorSdkError>(e))
            }
        },
    }
}

/// How the wait for the ready line ended.
pub enum ReadyOutcome {
    /// The watch decided.
    Decided(Result<ReadyInfo, CursorSdkError>),
    /// The watch went away without deciding.
    Closed,
    /// Nothing came in time.
    TimedOut,
}

/// What the wait for the ready line gives.
pub fn await_ready(outcome: ReadyOutcome) -> (r: Result<ReadyInfo, CursorSdkError>)
    ensures
        match outcome {
            ReadyOutcome::Decided(decided) => r == decided,
            ReadyOutcome::Closed => r is Err && error::is_handshake_error(
                r->Err_0,
                "ready-line channel closed"@,
            ),
            ReadyOutcome::TimedOut => r is Err && error::is_handshake_error(
                r->Err_0,
                "timed out waiting for cursor-sdk-bridge ready line"@,
            ),
        },
{
    match outcome {
        ReadyOutcome::Decided(decided) => decided,
        ReadyOutcome::Closed => Err(
            CursorSdkError::Handshake("ready-line channel closed".to_owned()),
        ),
        ReadyOutcome::TimedOut => Err(
            CursorSdkError::Handshake(
                "timed out waiting for cursor-sdk-bridge ready line".to_owned(),
            ),
        ),
    }
}

// -- The bearer token -------------------------------------------------------

/// The token on the ready line itself, if it has one.
pub open spec fn inline_token(info: ReadyInfo) -> Option<Seq<char>> {
    match info.auth_token {
        Some(t) => if text::trimmed(t@).len() > 0 {
            Some(text::trimmed(t@))
        } else {
            None
        },
        None => None,
    }
}

/// The outcome of reading the token file at `path`.
pub open spec fn token_from_file(
    path: Seq<char>,
    raw: Result<String, String>,
    r: Result<String, CursorSdkError>,
) -> bool {
    match raw {
        Ok(contents) => if text::trimmed(contents@).len() > 0 {
            r is Ok && r->Ok_0@ == text::trimmed(contents@)
        } else {
            r is Err && error::is_handshake_error(r->Err_0, "auth token file is empty"@)
        },
        Err(e) => r is Err && error::is_handshake_error(
            r->Err_0,
            "failed to read auth token file "@ + path + ": "@ + e@,
        ),
    }
}

/// Finding the bearer token may end with `r`: the token on the ready line, or
/// else the one in the file that it names.
pub open spec fn finds_bearer<F: FnOnce(&str) -> Result<String, String>>(
    info: ReadyInfo,
    read_file: F,
    r: Result<String, CursorSdkError>,
) -> bool {
    match inline_token(info) {
        Some(token) => r is Ok && r->Ok_0@ == token,
        None => match info.auth_token_file {
            None => r is Err && error::is_handshake_error(
                r->Err_0,
                "ready line missing authTokenFile"@,
            ),
            Some(path) => exists|p: &str, raw: Result<String, String>|
                {
                    &&& p@ == path@
                    &&& #[trigger] read_file.ensures((p,), raw)
                    &&& token_from_file(path@, raw, r)
                },
        },
    }
}

/// `read_file` may be called for the file that the ready line names, where the token
/// is not on the line itself.
pub open spec fn reads_token_file<F: FnOnce(&str) -> Result<String, String>>(
    info: ReadyInfo,
    read_file: F,
) -> bool {
    inline_token(info) is None ==> forall|p: &str|
        (info.auth_token_file matches Some(path) && p@ == path@)
            ==> #[trigger] read_file.requires((p,))
}

/// The bearer token of a ready line; `read_file` is called only when the token is
/// in a file.
pub fn read_bearer<F: FnOnce(&str) -> Result<String, String>>(info: &ReadyInfo, read_file: F) -> (r:
    Result<String, CursorSdkError>)
    requires
        reads_token_file(*info, read_file),
    ensures
        finds_bearer(*info, read_file, r),
{
    match &info.auth_token {
        Some(token) => {
            let trimmed = text::trim(token.as_str());
            if !trimmed.as_str().is_empty() {
                return Ok(trimmed);
            }
        },
        None => {},
    }
    let path = match &info.auth_token_file {
        Some(path) => path,
        None => {
            return Err(CursorSdkError::Handshake("ready line missing authTokenFile".to_owned()));
        },
    };
    let at: &str = path.as_str();
    let raw = read_file(at);
    let ghost contents = raw;
    assert(read_file.ensures((at,), contents));
    match raw {
        Ok(contents) => {
            let token = text::trim(contents.as_str());
            if token.as_str().is_empty() {
                Err(CursorSdkError::Handshake("auth token file is empty".to_owned()))
            } else {
                Ok(token)
            }
        },
        Err(e) => {
            let mut m = "failed to read auth token file ".to_owned();
            m.append(at);
            m.append(": ");
            m.append(e.as_str());
            Err(CursorSdkError::Handshake(m))
        },
    }
}

/// Where a running sidecar listens, and the token it wants.
#[derive(Debug)]
pub struct BridgeEndpoint {
    pub url: String,
    pub bearer: String,
}

/// The endpoint of a sidecar that announced itself: the token is looked for
/// before the address.
pub fn bridge_endpoint<F: FnOnce(&str) -> Result<String, String>>(
    info: &ReadyInfo,
    read_file: F,
) -> (r: Result<BridgeEndpoint, CursorSdkError>)
    requires
        reads_token_file(*info, read_file),
    ensures
        exists|bearer: Result<String, CursorSdkError>|
            {
                &&& #[trigger] finds_bearer(*info, read_file, bearer)
                &&& match bearer {
                    Err(e) => r == Err::<BridgeEndpoint, CursorSdkError>(e),
                    Ok(token) => match handshake::endpoint(*info) {
                        Some(url) => r is Ok && r->Ok_0.url@ == url && r->Ok_0.bearer == token,
                        None => r is Err && error::is_handshake_error(
                            r->Err_0,
                            "ready line missing url and port"@,
                        ),
                    },
                }
            },
{
    let found = read_bearer(info, read_file);
    let ghost token = found;
    assert(finds_bearer(*info, read_file, token));
    match found {
        Err(e) => Err(e),
        Ok(bearer) => match info.endpoint_url() {
            Ok(url) => Ok(BridgeEndpoint { url, bearer }),
            Err(e) => Err(e),
        },
    }
}

// -- Checking the sidecar ---------------------------------------------------

/// The message for a protocol that is not spoken here.
pub open spec fn unsupported_protocol(version: Seq<char>) -> Seq<char> {
    "unsupported protocol_version "@ + text::debug_form(version) + " (expected sdk.v1)"@
}

/// Require the protocol `sdk.v1`.
pub fn check_protocol_version(protocol_version: &str) -> (r: Result<(), CursorSdkError>)
    ensures
        protocol_version@ == BRIDGE_PROTOCOL@ ==> r == Ok::<(), CursorSdkError>(()),
        protocol_version@ != BRIDGE_PROTOCOL@ ==> r is Err && error::is_handshake_error(
            r->Err_0,
            unsupported_protocol(protocol_version@),
        ),
{
    if text::same_text(protocol_version, BRIDGE_PROTOCOL) {
        return Ok(());
    }
    let mut m = "unsupported protocol_version ".to_owned();
    m.append(text::debug_text(protocol_version).as_str());
    m.append(" (expected sdk.v1)");
    Err(CursorSdkError::Handshake(m))
}

/// The message for a protocol that is not spoken here names the protocol that
/// was offered, if that is plain text, and the one that is expected.
pub proof fn refused_protocol_is_named(version: Seq<char>)
    requires
        text::plain(version),
    ensures
        text::has_text(unsupported_protocol(version), version),
        text::has_text(unsupported_protocol(version), BRIDGE_PROTOCOL@),
{
    reveal_strlit("unsupported protocol_version ");
    reveal_strlit(" (expected sdk.v1)");
    reveal_strlit("sdk.v1");
    let m = unsupported_protocol(version);
    let at: int = "unsupported protocol_version "@.len() + 1int;
    assert(m.subrange(at, at + version.len()) =~= version);
    assert(text::occurs_at(m, version, at));
    let tail: int = at + version.len() + 12;
    assert(m.subrange(tail, tail + 6) =~= BRIDGE_PROTOCOL@);
    assert(text::occurs_at(m, BRIDGE_PROTOCOL@, tail));
}

/// The verdict on a sidecar whose version request ended with `version`.
pub open spec fn version_verdict(
    version: Result<String, CursorSdkError>,
    r: Result<(), CursorSdkError>,
) -> bool {
    match version {
        Err(e) => r is Err && error::is_handshake_error(
            r->Err_0,
            "GetVersion after spawn failed: "@ + e.shown(),
        ),
        Ok(v) => if v@ == BRIDGE_PROTOCOL@ {
            r is Ok
        } else {
            r is Err && error::is_handshake_error(r->Err_0, unsupported_protocol(v@))
        },
    }
}

/// Ping, then ask for the version; require `sdk.v1`. A failed ping is final.
pub fn verify_live_bridge<
    P: FnOnce() -> Result<String, CursorSdkError>,
    V: FnOnce() -> Result<String, CursorSdkError>,
>(ping: P, get_version: V) -> (r: Result<(), CursorSdkError>)
    requires
        ping.requires(()),
        forall|pong: String| #[trigger]
            ping.ensures((), Ok::<String, CursorSdkError>(pong)) ==> get_version.requires(()),
    ensures
        exists|pong: Result<String, CursorSdkError>| #[trigger]
            ping.ensures((), pong) && match pong {
                Err(e) => r is Err && error::is_handshake_error(
                    r->Err_0,
                    "Ping after spawn failed: "@ + e.shown(),
                ),
                Ok(_) => exists|version: Result<String, CursorSdkError>| #[trigger]
                    get_version.ensures((), version) && version_verdict(version, r),
            },
{
    let pong = ping();
    let ghost p = pong;
    assert(ping.ensures((), p));
    match pong {
        Ok(answer) => {
            assert(ping.ensures((), Ok::<String, CursorSdkError>(answer)));
        },
        Err(e) => {
            return Err(
                CursorSdkError::Handshake(
                    "Ping after spawn failed: ".to_owned().concat(e.display().as_str()),
                ),
            );
        },
    }
    let version = get_version();
    let ghost v = version;
    assert(get_version.ensures((), v));
    match version {
        Ok(v) => check_protocol_version(v.as_str()),
        Err(e) => Err(
            CursorSdkError::Handshake(
                "GetVersion after spawn failed: ".to_owned().concat(e.display().as_str()),
            ),
        ),
    }
}

// -- Laws -------------------------------------------------------------------

/// The sidecar is taken to have announced itself at most once: after a decision
/// no line decides again, and the end of the output is no error.
pub proof fn ready_line_decides_once(
    first: ReadyWatch,
    second: ReadyWatch,
    third: ReadyWatch,
    line: Seq<char>,
    parsed: Result<Option<ReadyInfo>, CursorSdkError>,
    decided: Option<Result<ReadyInfo, CursorSdkError>>,
    next_line: Seq<char>,
    next_parsed: Result<Option<ReadyInfo>, CursorSdkError>,
    again: Option<Result<ReadyInfo, CursorSdkError>>,
)
    requires
        watch_step(first, second, line, parsed, decided),
        decided is Some,
        watch_step(second, third, next_line, next_parsed, again),
    ensures
        again is None,
        second.decided(),
        third.decided(),
{
}

/// The token on the ready line comes first; it is used without the white space
/// around it, and a blank one does not count.
pub proof fn inline_token_comes_first<F: FnOnce(&str) -> Result<String, String>>(
    info: ReadyInfo,
    read_file: F,
    r: Result<String, CursorSdkError>,
)
    requires
        finds_bearer(info, read_file, r),
    ensures
        (info.auth_token matches Some(t) && text::trimmed(t@).len() > 0) ==> (r matches Ok(token)
            && token@ == text::trimmed(info.auth_token->0@)),
        (info.auth_token matches Some(t) ==> text::trimmed(t@).len() == 0) && info.auth_token_file is None
            ==> r is Err,
        (info.auth_token matches Some(t) ==> text::trimmed(t@).len() == 0) ==> (
        info.auth_token_file matches Some(path) ==> exists|p: &str, raw: Result<String, String>|
            {
                &&& p@ == path@
                &&& #[trigger] read_file.ensures((p,), raw)
                &&& r is Ok <==> (raw matches Ok(contents) && text::trimmed(contents@).len() > 0)
                &&& r matches Ok(token) ==> (raw matches Ok(contents) && token@ == text::trimmed(
                    contents@,
                ))
            }),
{
    if (info.auth_token matches Some(t) ==> text::trimmed(t@).len() == 0)
        && info.auth_token_file is Some {
        let path = info.auth_token_file->0@;
        let (p, raw) = choose|p: &str, raw: Result<String, String>|
            {
                &&& p@ == path
                &&& #[trigger] read_file.ensures((p,), raw)
                &&& token_from_file(path, raw, r)
            };
        assert(read_file.ensures((p,), raw));
    }
}

/// Lines that are no ready line are kept, one below the other, while fewer than 8192
/// bytes are; a ready line is not kept, and what was kept is never lost.
pub proof fn other_output_is_kept(
    before: ReadyWatch,
    after: ReadyWatch,
    line: Seq<char>,
    parsed: Result<Option<ReadyInfo>, CursorSdkError>,
    r: Option<Result<ReadyInfo, CursorSdkError>>,
)
    requires
        watch_step(before, after, line, parsed, r),
    ensures
        parsed == Ok::<Option<ReadyInfo>, CursorSdkError>(None) && vstd::utf8::encode_utf8(
            before.captured(),
        ).len() < 8 * 1024 ==> after.captured() == before.captured() + line + "\n"@,
        before.captured().is_prefix_of(after.captured()),
        parsed != Ok::<Option<ReadyInfo>, CursorSdkError>(None) ==> after.captured()
            == before.captured() && after.decided(),
        r is Some <==> !before.decided() && parsed != Ok::<Option<ReadyInfo>, CursorSdkError>(None),
        r matches Some(Ok(info)) ==> parsed == Ok::<Option<ReadyInfo>, CursorSdkError>(Some(info)),
        r matches Some(Err(e)) ==> parsed == Err::<Option<ReadyInfo>, CursorSdkError>(e),
{
    let b = before.captured();
    assert(after.captured().subrange(0, b.len() as int) =~= b);
}

/// A sidecar is accepted if and only if it answers the version request with
/// `sdk.v1`; a request that failed is an error that says why.
pub proof fn only_the_spoken_protocol_is_accepted(
    version: Result<String, CursorSdkError>,
    r: Result<(), CursorSdkError>,
)
    requires
        version_verdict(version, r),
    ensures
        r is Ok <==> (version matches Ok(v) && v@ == "sdk.v1"@),
        version matches Err(e) ==> (r matches Err(CursorSdkError::Handshake(m)) && e.shown().is_suffix_of(
            m@,
        )),
{
    match version {
        Err(e) => {
            let m = "GetVersion after spawn failed: "@ + e.shown();
            assert(m.subrange(m.len() - e.shown().len(), m.len() as int) =~= e.shown());
        },
        Ok(_) => {},
    }
}

/// A token file that cannot be read is an error that names the file and says why;
/// an empty one is an error too.
pub proof fn unreadable_token_file_is_named(
    path: Seq<char>,
    raw: Result<String, String>,
    r: Result<String, CursorSdkError>,
)
    requires
        token_from_file(path, raw, r),
    ensures
        raw matches Err(e) ==> (r matches Err(CursorSdkError::Handshake(m)) && text::has_text(m@, path)
            && e@.is_suffix_of(m@)),
        raw matches Ok(contents) ==> text::trimmed(contents@).len() == 0 ==> (r matches Err(
            CursorSdkError::Handshake(_),
        )),
{
    match raw {
        Err(e) => {
            let start = "failed to read auth token file "@;
            let m = start + path + ": "@ + e@;
            text::lemma_text_between(start, path, ": "@ + e@);
            assert(start + path + (": "@ + e@) =~= m);
            assert(m.subrange(m.len() - e@.len(), m.len() as int) =~= e@);
        },
        Ok(_) => {},
    }
}

}
