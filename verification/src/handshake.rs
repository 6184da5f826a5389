//! The line with which the sidecar tells where it listens.

use vstd::prelude::*;

use crate::error;
use crate::error::CursorSdkError;
use crate::text;

verus! {

/// Literal prefix of the bridge ready line, including the trailing space.
pub const READY_LINE_PREFIX: &'static str = "cursor-sdk-bridge ready ";

/// Parsed ready-line discovery payload (`schemaVersion == 1`).
#[derive(Debug)]
pub struct ReadyInfo {
    pub schema_version: u32,
    pub server_version: Option<String>,
    pub pid: Option<u32>,
    pub transport: String,
    pub protocol: String,
    pub host: Option<String>,
    pub port: Option<u16>,
    pub url: Option<String>,
    pub auth_token_file: Option<String>,
    pub auth_token: Option<String>,
}

impl Clone for ReadyInfo {
    fn clone(&self) -> (r: Self)
        ensures
            r == *self,
    {
        ReadyInfo {
            schema_version: self.schema_version,
            server_version: self.server_version.clone(),
            pid: self.pid,
            transport: self.transport.clone(),
            protocol: self.protocol.clone(),
            host: self.host.clone(),
            port: self.port,
            url: self.url.clone(),
            auth_token_file: self.auth_token_file.clone(),
            auth_token: self.auth_token.clone(),
        }
    }
}

/// The host as it stands in a URL: an IPv6 address goes in brackets.
pub open spec fn host_in_url(host: Seq<char>) -> Seq<char> {
    if host.contains(':') && !(host.len() > 0 && host[0] == '[') {
        "["@ + host + "]"@
    } else {
        host
    }
}

/// The host of a ready line, or the local one.
pub open spec fn host_of(info: ReadyInfo) -> Seq<char> {
    match info.host {
        Some(h) => h@,
        None => "127.0.0.1"@,
    }
}

/// The address that a ready line gives, if it gives one: a URL without trailing
/// slashes, or a host and a port.
pub open spec fn endpoint(info: ReadyInfo) -> Option<Seq<char>> {
    if info.url matches Some(url) && url@.len() > 0 {
        Some(text::without_trailing(info.url->0@, '/'))
    } else {
        match info.port {
            Some(port) => Some(
                "http://"@ + host_in_url(host_of(info)) + ":"@ + text::decimal(port as nat),
            ),
            None => None,
        }
    }
}

impl ReadyInfo {
    /// The address to send requests to.
    pub fn endpoint_url(&self) -> (r: Result<String, CursorSdkError>)
        ensures
            match endpoint(*self) {
                Some(url) => r is Ok && r->Ok_0@ == url,
                None => r is Err && error::is_handshake_error(
                    r->Err_0,
                    "ready line missing url and port"@,
                ),
            },
    {
        match &self.url {
            Some(url) => if !url.as_str().is_empty() {
                return Ok(text::trim_end_char(url.as_str(), '/'));
            },
            None => {},
        }
        let host = match &self.host {
            Some(h) => h.clone(),
            None => "127.0.0.1".to_owned(),
        };
        let port = match self.port {
            Some(p) => p,
            None => {
                return Err(
                    CursorSdkError::Handshake("ready line missing url and port".to_owned()),
                );
            },
        };
        let chars = text::chars_of(host.as_str());
        let bracketed: bool = chars.len() > 0 && chars[0] == '[';
        let mut url = "http://".to_owned();
        let shown = if text::split_once(host.as_str(), ':').is_some() && !bracketed {
            let mut s = "[".to_owned();
            s.append(host.as_str());
            s.append("]");
            s
        } else {
            host
        };
        url.append(shown.as_str());
        url.append(":");
        url.append(text::to_decimal(port as u64).as_str());
        Ok(url)
    }
}

/// What is wrong with a decoded payload, if anything: the schema, the transport
/// and the protocol are looked at in turn.
pub open spec fn payload_fault(info: ReadyInfo) -> Option<Seq<char>> {
    if info.schema_version != 1 {
        Some("unsupported ready schemaVersion "@ + text::decimal(info.schema_version as nat))
    } else if info.transport@ != "tcp"@ {
        Some("unsupported transport "@ + info.transport@)
    } else if info.protocol@ != "connect"@ {
        Some("unsupported protocol "@ + info.protocol@)
    } else {
        None
    }
}

/// The outcome of a discovery line whose payload decodes to `decoded`.
pub open spec fn ready_outcome(
    decoded: Result<ReadyInfo, String>,
    r: Result<Option<ReadyInfo>, CursorSdkError>,
) -> bool {
    match decoded {
        Err(e) => r is Err && error::is_handshake_error(r->Err_0, "invalid ready JSON: "@ + e@),
        Ok(info) => match payload_fault(info) {
            Some(why) => r is Err && error::is_handshake_error(r->Err_0, why),
            None => r == Ok::<Option<ReadyInfo>, CursorSdkError>(Some(info)),
        },
    }
}

/// Check a decoded payload.
pub fn check_payload(info: ReadyInfo) -> (r: Result<ReadyInfo, CursorSdkError>)
    ensures
        match payload_fault(info) {
            Some(why) => r is Err && error::is_handshake_error(r->Err_0, why),
            None => r == Ok::<ReadyInfo, CursorSdkError>(info),
        },
{
    if info.schema_version != 1 {
        return Err(
            CursorSdkError::Handshake(
                "unsupported ready schemaVersion ".to_owned().concat(
                    text::to_decimal(info.schema_version as u64).as_str(),
                ),
            ),
        );
    }
    if !text::same_text(info.transport.as_str(), "tcp") {
        return Err(
            CursorSdkError::Handshake(
                "unsupported transport ".to_owned().concat(info.transport.as_str()),
            ),
        );
    }
    if !text::same_text(info.protocol.as_str(), "connect") {
        return Err(
            CursorSdkError::Handshake(
                "unsupported protocol ".to_owned().concat(info.protocol.as_str()),
            ),
        );
    }
    Ok(info)
}

/// Parsing `line` may end with `r`: a line without the prefix is none of the
/// sidecar's discovery lines, and the rest of any other is decoded and checked.
pub open spec fn parses<F: FnOnce(&str) -> Result<ReadyInfo, String>>(
    line: Seq<char>,
    decode: F,
    r: Result<Option<ReadyInfo>, CursorSdkError>,
) -> bool {
    if READY_LINE_PREFIX@.is_prefix_of(line) {
        exists|payload: &str, decoded: Result<ReadyInfo, String>|
            {
                &&& payload@ == line.skip(READY_LINE_PREFIX@.len() as int)
                &&& #[trigger] decode.ensures((payload,), decoded)
                &&& ready_outcome(decoded, r)
            }
    } else {
        r == Ok::<Option<ReadyInfo>, CursorSdkError>(None)
    }
}

/// `decode` may be called with the payload of `line`, if it has one.
pub open spec fn decodes<F: FnOnce(&str) -> Result<ReadyInfo, String>>(
    line: Seq<char>,
    decode: F,
) -> bool {
    READY_LINE_PREFIX@.is_prefix_of(line) ==> forall|payload: &str|
        payload@ == line.skip(READY_LINE_PREFIX@.len() as int) ==> #[trigger] decode.requires(
            (payload,),
        )
}

/// Parse a stderr line. `None` if it is not the discovery line.
pub fn parse_ready_line<F: FnOnce(&str) -> Result<ReadyInfo, String>>(line: &str, decode: F) -> (r:
    Result<Option<ReadyInfo>, CursorSdkError>)
    requires
        decodes(line@, decode),
    ensures
        parses(line@, decode, r),
{
    let payload = match text::strip_prefix(line, READY_LINE_PREFIX) {
        Some(payload) => payload,
        None => return Ok(None),
    };
    let json: &str = payload.as_str();
    let decoded = decode(json);
    let ghost d = decoded;
    assert(decode.ensures((json,), d));
    match decoded {
        Ok(info) => match check_payload(info) {
            Ok(info) => Ok(Some(info)),
            Err(e) => Err(e),
        },
        Err(e) => Err(
            CursorSdkError::Handshake("invalid ready JSON: ".to_owned().concat(e.as_str())),
        ),
    }
}

/// Every address ends without a slash.
pub proof fn endpoint_has_no_trailing_slash(info: ReadyInfo)
    ensures
        endpoint(info) matches Some(url) && url.len() > 0 ==> endpoint(info)->0.last() != '/',
{
    if info.url matches Some(url) && url@.len() > 0 {
        lemma_without_trailing(info.url->0@, '/');
    } else if info.port is Some {
        let d = text::decimal(info.port->0 as nat);
        text::decimal_reads_back(info.port->0 as nat);
        text::lemma_numeral_not_empty(info.port->0 as nat, 10);
        assert(endpoint(info)->0.last() == d.last());
        assert(text::is_digit(d[d.len() - 1]));
    }
}

proof fn lemma_without_trailing(s: Seq<char>, c: char)
    ensures
        text::without_trailing(s, c).len() > 0 ==> text::without_trailing(s, c).last() != c,
    decreases s.len(),
{
    if s.len() > 0 && s.last() == c {
        lemma_without_trailing(s.drop_last(), c);
    }
}

/// A URL on the ready line is the address, without the slashes at its end.
pub proof fn url_is_the_address(info: ReadyInfo, url: Seq<char>, slashes: Seq<char>)
    requires
        info.url matches Some(given) && given@ == url + slashes && given@.len() > 0,
        url.len() > 0 ==> url.last() != '/',
        forall|i: int| 0 <= i < slashes.len() ==> #[trigger] slashes[i] == '/',
    ensures
        endpoint(info) == Some(url),
{
    text::trailing_characters_come_off(url, slashes, '/');
}

/// Without a URL the address is made of the host and the port: the local host where
/// none is given, and an IPv6 address in brackets. Without a port there is none.
pub proof fn host_and_port_make_the_address(info: ReadyInfo)
    requires
        info.url matches Some(url) ==> url@.len() == 0,
    ensures
        info.port is None ==> endpoint(info) is None,
        info.port matches Some(port) ==> info.host is None ==> endpoint(info) == Some(
            "http://127.0.0.1:"@ + text::decimal(port as nat),
        ),
        info.port matches Some(port) ==> (info.host matches Some(host) && !host@.contains(':'))
            ==> endpoint(info) == Some(
            "http://"@ + info.host->0@ + ":"@ + text::decimal(port as nat),
        ),
        info.port matches Some(port) ==> (info.host matches Some(host) && host@.contains(':')
            && host@[0] != '[') ==> endpoint(info) == Some(
            "http://["@ + info.host->0@ + "]:"@ + text::decimal(port as nat),
        ),
{
    reveal_strlit("http://127.0.0.1:");
    reveal_strlit("http://");
    reveal_strlit("127.0.0.1");
    reveal_strlit(":");
    reveal_strlit("http://[");
    reveal_strlit("[");
    reveal_strlit("]");
    reveal_strlit("]:");
    if info.port is Some {
        let d = text::decimal(info.port->0 as nat);
        if info.host is None {
            assert(!"127.0.0.1"@.contains(':')) by {
                assert forall|i: int| 0 <= i < "127.0.0.1"@.len() implies "127.0.0.1"@[i] != ':' by {}
            }
            assert(endpoint(info)->0 =~= "http://127.0.0.1:"@ + d);
        } else {
            let host = info.host->0@;
            if host.contains(':') && host[0] != '[' {
                assert(endpoint(info)->0 =~= "http://["@ + host + "]:"@ + d);
            }
        }
    }
}

/// A payload is good if and only if its schema is the first, its transport `tcp`
/// and its protocol `connect`.
pub proof fn good_payloads(info: ReadyInfo)
    ensures
        payload_fault(info) is None <==> info.schema_version == 1 && info.transport@ == "tcp"@
            && info.protocol@ == "connect"@,
{
}

/// Only what follows the prefix of a ready line is decoded, and all of it; a line
/// without the prefix is no ready line.
pub proof fn ready_line_is_prefix_and_payload<F: FnOnce(&str) -> Result<ReadyInfo, String>>(
    json: Seq<char>,
    other: Seq<char>,
    decode: F,
    r: Result<Option<ReadyInfo>, CursorSdkError>,
)
    ensures
        parses("cursor-sdk-bridge ready "@ + json, decode, r) ==> exists|
            payload: &str,
            decoded: Result<ReadyInfo, String>,
        |
            {
                &&& payload@ == json
                &&& #[trigger] decode.ensures((payload,), decoded)
                &&& decoded is Err ==> r is Err
                &&& decoded matches Ok(info) ==> (r == Ok::<Option<ReadyInfo>, CursorSdkError>(
                    Some(info),
                ) || r is Err)
                &&& decoded matches Ok(info) ==> info.schema_version == 1 && info.transport@
                    == "tcp"@ && info.protocol@ == "connect"@ ==> r is Ok
            },
        !"cursor-sdk-bridge ready "@.is_prefix_of(other) && parses(other, decode, r) ==> r == Ok::<
            Option<ReadyInfo>,
            CursorSdkError,
        >(None),
{
    let prefix = "cursor-sdk-bridge ready "@;
    let line = prefix + json;
    assert(line.subrange(0, prefix.len() as int) =~= prefix);
    assert(line.skip(prefix.len() as int) =~= json);
    if parses(line, decode, r) {
        let (payload, decoded) = choose|payload: &str, decoded: Result<ReadyInfo, String>|
            {
                &&& payload@ == line.skip(prefix.len() as int)
                &&& #[trigger] decode.ensures((payload,), decoded)
                &&& ready_outcome(decoded, r)
            };
        assert(decode.ensures((payload,), decoded));
    }
}

/// A payload that is no good is refused with what is wrong in it: its transport or
/// its protocol, as it stands; one that does not decode is refused with the reason.
pub proof fn refused_payloads_are_explained(
    info: ReadyInfo,
    e: String,
    r: Result<Option<ReadyInfo>, CursorSdkError>,
)
    ensures
        info.schema_version == 1 && info.transport@ != "tcp"@ ==> (payload_fault(info) matches Some(
            why,
        ) && info.transport@.is_suffix_of(why)),
        info.schema_version == 1 && info.transport@ == "tcp"@ && info.protocol@ != "connect"@ ==> (
        payload_fault(info) matches Some(why) && info.protocol@.is_suffix_of(why)),
        info.schema_version != 1 ==> (payload_fault(info) matches Some(why) && text::decimal(
            info.schema_version as nat,
        ).is_suffix_of(why)),
        ready_outcome(Err::<ReadyInfo, String>(e), r) ==> (r matches Err(CursorSdkError::Handshake(m))
            && e@.is_suffix_of(m@)),
        ready_outcome(Ok::<ReadyInfo, String>(info), r) ==> (payload_fault(info) matches Some(why)
            ==> (r matches Err(CursorSdkError::Handshake(m)) && m@ == why)),
{
    let a = "unsupported transport "@ + info.transport@;
    assert(a.subrange(a.len() - info.transport@.len(), a.len() as int) =~= info.transport@);
    let b = "unsupported protocol "@ + info.protocol@;
    assert(b.subrange(b.len() - info.protocol@.len(), b.len() as int) =~= info.protocol@);
    let d = text::decimal(info.schema_version as nat);
    let c = "unsupported ready schemaVersion "@ + d;
    assert(c.subrange(c.len() - d.len(), c.len() as int) =~= d);
    let m = "invalid ready JSON: "@ + e@;
    assert(m.subrange(m.len() - e@.len(), m.len() as int) =~= e@);
}

}
