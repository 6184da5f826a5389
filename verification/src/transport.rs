//! Connect framing and errors (`application/connect+proto`).

use vstd::prelude::*;
use vstd::utf8::*;

use serde_json::Value;

use crate::error::CursorSdkError;
use crate::json;
use crate::json::{json_as_str, json_get, Tree};
use crate::text;

verus! {

/// The content type of a unary request.
pub const CONNECT_PROTO_UNARY: &'static str = "application/proto";

/// The content type of a streamed request.
pub const CONNECT_PROTO_STREAM: &'static str = "application/connect+proto";

/// The value of the `Connect-Protocol-Version` header.
pub const CONNECT_PROTOCOL_VERSION: &'static str = "1";

/// The URL of a method.
pub fn rpc_url(base_url: &str, service: &str, method: &str) -> (r: String)
    ensures
        r@ == base_url@ + "/"@ + service@ + "/"@ + method@,
{
    let mut url = base_url.to_owned();
    url.append("/");
    url.append(service);
    url.append("/");
    url.append(method);
    url
}

/// The value of the `Authorization` header.
pub fn authorization(bearer: &str) -> (r: String)
    ensures
        r@ == "Bearer "@ + bearer@,
{
    "Bearer ".to_owned().concat(bearer)
}

// -- Frames -----------------------------------------------------------------

/// The four bytes of a length, the highest first.
pub open spec fn be_bytes(n: nat) -> Seq<u8> {
    seq![
        (n / 0x100_0000 % 0x100) as u8,
        (n / 0x1_0000 % 0x100) as u8,
        (n / 0x100 % 0x100) as u8,
        (n % 0x100) as u8,
    ]
}

/// The length that four bytes stand for, the highest first.
pub open spec fn be_value(b: Seq<u8>) -> nat {
    (b[0] as nat) * 0x100_0000 + (b[1] as nat) * 0x1_0000 + (b[2] as nat) * 0x100 + (b[3] as nat)
}

/// A frame: the flags, the length of the payload in four bytes, the payload.
pub open spec fn frame_bytes(flags: u8, payload: Seq<u8>) -> Seq<u8> {
    seq![flags] + be_bytes(payload.len()) + payload
}

/// Frame a payload. Of a payload longer than four bytes can count, the length
/// says the low 32 bits.
pub fn encode_connect_frame(flags: u8, payload: &Vec<u8>) -> (r: Vec<u8>)
    ensures
        r@ == frame_bytes(flags, payload@),
{
    let len: u64 = payload.len() as u64;
    let mut out: Vec<u8> = Vec::new();
    out.push(flags);
    out.push((len / 0x100_0000 % 0x100) as u8);
    out.push((len / 0x1_0000 % 0x100) as u8);
    out.push((len / 0x100 % 0x100) as u8);
    out.push((len % 0x100) as u8);
    let ghost head = out@;
    let mut i: usize = 0;
    while i < payload.len()
        invariant
            i <= payload@.len(),
            out@ == head + payload@.take(i as int),
        decreases payload@.len() - i,
    {
        out.push(payload[i]);
        i += 1;
        assert(out@ =~= head + payload@.take(i as int));
    }
    proof {
        assert(payload@.take(payload@.len() as int) =~= payload@);
        assert(head =~= seq![flags] + be_bytes(payload@.len()));
    }
    out
}

/// The payload length in the frame that `body` begins with.
pub open spec fn frame_len(body: Seq<u8>) -> nat {
    be_value(body.subrange(1, 5))
}

/// `body` begins with the five bytes that head a frame.
pub open spec fn has_head(body: Seq<u8>) -> bool {
    body.len() >= 5
}

/// `body` begins with a whole frame.
pub open spec fn has_frame(body: Seq<u8>) -> bool {
    has_head(body) && body.len() >= 5 + frame_len(body)
}

/// The payload of the frame that `body` begins with.
pub open spec fn frame_payload(body: Seq<u8>) -> Seq<u8> {
    body.subrange(5, 5 + frame_len(body) as int)
}

/// What follows the frame that `body` begins with.
pub open spec fn after_frame(body: Seq<u8>) -> Seq<u8> {
    body.skip(5 + frame_len(body) as int)
}

fn read_len(body: &Vec<u8>, at: usize) -> (r: u64)
    requires
        at + 4 <= body@.len(),
    ensures
        r == be_value(body@.subrange(at as int, at + 4)),
        r <= 0xffff_ffff,
{
    let total: usize = body.len();
    assert(at + 4 <= total);
    let ghost b = body@.subrange(at as int, at + 4);
    assert(b[0] == body@[at as int] && b[1] == body@[at + 1] && b[2] == body@[at + 2] && b[3]
        == body@[at + 3]);
    (body[at] as u64) * 0x100_0000 + (body[at + 1] as u64) * 0x1_0000 + (body[at + 2] as u64)
        * 0x100 + (body[at + 3] as u64)
}

pub(crate) fn copy_range(body: &Vec<u8>, from: usize, to: usize) -> (r: Vec<u8>)
    requires
        from <= to <= body@.len(),
    ensures
        r@ == body@.subrange(from as int, to as int),
{
    let mut out: Vec<u8> = Vec::new();
    let mut i: usize = from;
    while i < to
        invariant
            from <= i <= to <= body@.len(),
            out@ == body@.subrange(from as int, i as int),
        decreases to - i,
    {
        out.push(body[i]);
        i += 1;
        assert(out@ =~= body@.subrange(from as int, i as int));
    }
    out
}

/// The whole frames that `body` begins with; what is left over is dropped.
pub open spec fn frames_in(body: Seq<u8>) -> Seq<(u8, Seq<u8>)>
    decreases body.len(),
{
    if has_frame(body) {
        seq![(body[0], frame_payload(body))] + frames_in(after_frame(body))
    } else {
        Seq::empty()
    }
}

/// The views of some frames.
pub open spec fn frame_views(frames: Seq<(u8, Vec<u8>)>) -> Seq<(u8, Seq<u8>)> {
    Seq::new(frames.len(), |i: int| (frames[i].0, frames[i].1@))
}

/// Incremental frame decoder used by unit tests and live streams. It never
/// fails: an unfinished frame at the end is left for later.
pub fn split_frames(body: &Vec<u8>) -> (r: Result<Vec<(u8, Vec<u8>)>, CursorSdkError>)
    ensures
        r is Ok,
        frame_views(r->Ok_0@) == frames_in(body@),
{
    let mut frames: Vec<(u8, Vec<u8>)> = Vec::new();
    let mut pos: usize = 0;
    let total: usize = body.len();
    proof {
        assert(body@.skip(0) =~= body@);
        assert(frame_views(frames@) =~= Seq::<(u8, Seq<u8>)>::empty());
        assert(frame_views(frames@) + frames_in(body@.skip(0)) =~= frames_in(body@));
    }
    while total - pos >= 5
        invariant
            pos <= total,
            total == body@.len(),
            frame_views(frames@) + frames_in(body@.skip(pos as int)) == frames_in(body@),
        decreases total - pos,
    {
        let ghost rest = body@.skip(pos as int);
        let flags: u8 = body[pos];
        let len: u64 = read_len(body, pos + 1);
        proof {
            assert(rest.subrange(1, 5) =~= body@.subrange(pos + 1, pos + 5));
        }
        if ((total - pos - 5) as u64) < len {
            proof {
                assert(!has_frame(rest));
                assert(frame_views(frames@) + frames_in(rest) =~= frame_views(frames@));
            }
            return Ok(frames);
        }
        let end: usize = pos + 5 + len as usize;
        let payload = copy_range(body, pos + 5, end);
        let ghost before = frame_views(frames@);
        proof {
            assert(payload@ =~= frame_payload(rest));
            assert(after_frame(rest) =~= body@.skip(end as int));
        }
        frames.push((flags, payload));
        proof {
            assert(frame_views(frames@) =~= before.push((flags, frame_payload(rest))));
            assert(frame_views(frames@) + frames_in(after_frame(rest)) =~= before + frames_in(rest));
        }
        pos = end;
    }
    proof {
        assert(!has_frame(body@.skip(pos as int)));
        assert(frame_views(frames@) + frames_in(body@.skip(pos as int)) =~= frame_views(frames@));
    }
    Ok(frames)
}

// -- Errors -----------------------------------------------------------------

/// The body of a Connect error.
pub struct ConnectErrorBody {
    pub code: String,
    pub message: String,
    pub details: Vec<Value>,
}

/// The request id that one detail of an error gives: under `requestId`, or under
/// `request_id` where there is no `requestId`.
pub open spec fn request_id_in(detail: Tree) -> Option<Seq<char>> {
    if json::member(detail, "requestId"@) is Some {
        json::text_member(detail, "requestId"@)
    } else {
        json::text_member(detail, "request_id"@)
    }
}

/// The request id of the first detail that gives one.
pub open spec fn first_request_id(details: Seq<Tree>) -> Option<Seq<char>>
    decreases details.len(),
{
    if details.len() == 0 {
        None
    } else if first_request_id(details.drop_last()) is Some {
        first_request_id(details.drop_last())
    } else {
        request_id_in(details.last())
    }
}

/// `e` is the error that `err` reports for a method: an empty code is `unknown`.
pub open spec fn reports(
    e: CursorSdkError,
    service: Seq<char>,
    method: Seq<char>,
    err: ConnectErrorBody,
) -> bool {
    e matches CursorSdkError::Rpc { method: m, code, message, request_id } && m@ == service + "/"@
        + method && code@ == (if err.code@.len() == 0 {
        "unknown"@
    } else {
        err.code@
    }) && message@ == err.message@ && text::is_text(
        request_id,
        first_request_id(json::trees(err.details@)),
    )
}

fn detail_request_id(detail: &Value) -> (r: Option<String>)
    ensures
        text::is_text(r, request_id_in(json::json_tree(*detail))),
{
    let found = match json_get(detail, "requestId") {
        Some(v) => Some(v),
        None => json_get(detail, "request_id"),
    };
    match found {
        Some(v) => match json_as_str(v) {
            Some(s) => Some(s.to_owned()),
            None => None,
        },
        None => None,
    }
}

proof fn lemma_first_request_id_counts(details: Seq<Tree>, i: int)
    requires
        0 <= i <= details.len(),
        first_request_id(details.take(i)) is Some,
    ensures
        first_request_id(details) == first_request_id(details.take(i)),
    decreases details.len() - i,
{
    if i < details.len() {
        assert(details.take(i + 1).drop_last() =~= details.take(i));
        lemma_first_request_id_counts(details, i + 1);
    } else {
        assert(details.take(i) =~= details);
    }
}

fn find_request_id(details: &Vec<Value>) -> (r: Option<String>)
    ensures
        text::is_text(r, first_request_id(json::trees(details@))),
{
    let ghost all = json::trees(details@);
    let mut i: usize = 0;
    while i < details.len()
        invariant
            i <= details@.len(),
            all == json::trees(details@),
            first_request_id(all.take(i as int)) is None,
        decreases details@.len() - i,
    {
        proof {
            assert(all.take(i + 1).drop_last() =~= all.take(i as int));
            assert(all.take(i + 1).last() == json::json_tree(details@[i as int]));
        }
        let found = detail_request_id(&details[i]);
        if found.is_some() {
            proof {
                lemma_first_request_id_counts(all, i + 1);
            }
            return found;
        }
        i += 1;
    }
    assert(all.take(details@.len() as int) =~= all);
    None
}

/// The error that a Connect error body reports.
pub fn connect_error(service: &str, method: &str, err: &ConnectErrorBody) -> (r: CursorSdkError)
    ensures
        reports(r, service@, method@, *err),
{
    let mut name = service.to_owned();
    name.append("/");
    name.append(method);
    CursorSdkError::Rpc {
        method: name,
        code: if err.code.as_str().is_empty() {
            "unknown".to_owned()
        } else {
            err.code.clone()
        },
        message: err.message.clone(),
        request_id: find_request_id(&err.details),
    }
}

/// The text of bytes that are meant to be UTF-8.
pub uninterp spec fn lossy_text(bytes: Seq<u8>) -> Seq<char>;

/// `String::from_utf8_lossy`: the text of valid UTF-8 as it is. What stands in
/// place of invalid sequences is left unsaid.
#[verifier::external_body]
fn from_utf8_lossy(bytes: &Vec<u8>) -> (r: String)
    ensures
        r@ == lossy_text(bytes@),
        valid_utf8(bytes@) ==> r@ == decode_utf8(bytes@),
{
    String::from_utf8_lossy(bytes).into_owned()
}

/// How many characters of an unreadable error body are shown.
pub const MAX_SHOWN_BODY: usize = 500;

/// The first characters of a text.
pub open spec fn first_chars(s: Seq<char>, n: int) -> Seq<char> {
    if s.len() <= n {
        s
    } else {
        s.take(n)
    }
}

/// The error for a body that holds no Connect error.
pub open spec fn reports_unreadable(
    e: CursorSdkError,
    service: Seq<char>,
    method: Seq<char>,
    shown: Seq<char>,
) -> bool {
    e matches CursorSdkError::Rpc { method: m, code, message, request_id } && m@ == service + "/"@
        + method && code@ == "unknown"@ && message@ == first_chars(shown, MAX_SHOWN_BODY as int)
        && request_id is None
}

/// The error for a body whose text is `shown` and that holds no Connect error.
pub fn unreadable_error(service: &str, method: &str, shown: &str) -> (r: CursorSdkError)
    ensures
        reports_unreadable(r, service@, method@, shown@),
{
    let chars = text::chars_of(shown);
    let n: usize = if chars.len() <= MAX_SHOWN_BODY {
        chars.len()
    } else {
        MAX_SHOWN_BODY
    };
    let message = text::text_of(&chars, 0, n);
    assert(message@ =~= first_chars(shown@, MAX_SHOWN_BODY as int));
    let mut name = service.to_owned();
    name.append("/");
    name.append(method);
    CursorSdkError::Rpc { method: name, code: "unknown".to_owned(), message, request_id: None }
}

/// The error for the body of a failed request may be `e`: what the body reports,
/// if `read_error` reads an error in it, and its first characters otherwise.
pub open spec fn body_error<P: FnOnce(&Vec<u8>) -> Option<ConnectErrorBody>>(
    service: Seq<char>,
    method: Seq<char>,
    body: Seq<u8>,
    read_error: P,
    e: CursorSdkError,
) -> bool {
    exists|b: &Vec<u8>, read: Option<ConnectErrorBody>|
        {
            &&& b@ == body
            &&& #[trigger] read_error.ensures((b,), read)
            &&& match read {
                Some(err) => reports(e, service, method, err),
                None => reports_unreadable(e, service, method, lossy_text(body)),
            }
        }
}

/// The error for the body of a failed request.
pub fn connect_error_from_body<P: FnOnce(&Vec<u8>) -> Option<ConnectErrorBody>>(
    service: &str,
    method: &str,
    body: &Vec<u8>,
    read_error: P,
) -> (r: CursorSdkError)
    requires
        read_error.requires((body,)),
    ensures
        body_error(service@, method@, body@, read_error, r),
{
    let read = read_error(body);
    let ghost err = read;
    assert(read_error.ensures((body,), err));
    match read {
        Some(err) => connect_error(service, method, &err),
        None => unreadable_error(service, method, from_utf8_lossy(body).as_str()),
    }
}

// -- Streams ----------------------------------------------------------------

/// How the frames of a stream end.
pub enum StreamEnd {
    /// With less than the head of another frame.
    Exhausted,
    /// With a frame that is cut short.
    Truncated,
    /// With an end-of-stream frame that has this payload.
    Closed(Seq<u8>),
}

/// The flag of an end-of-stream frame is set.
pub open spec fn closes_stream(flags: u8) -> bool {
    flags & 0x02 != 0
}

/// The payloads of a stream's messages, and how it ends. Frames without a
/// payload only keep the stream alive.
pub open spec fn stream_in(body: Seq<u8>) -> (Seq<Seq<u8>>, StreamEnd)
    decreases body.len(),
{
    if !has_head(body) {
        (Seq::empty(), StreamEnd::Exhausted)
    } else if !has_frame(body) {
        (Seq::empty(), StreamEnd::Truncated)
    } else if closes_stream(body[0]) {
        (Seq::empty(), StreamEnd::Closed(frame_payload(body)))
    } else {
        let rest = stream_in(after_frame(body));
        if frame_len(body) == 0 {
            rest
        } else {
            (seq![frame_payload(body)] + rest.0, rest.1)
        }
    }
}

/// `decode` may make `out` of `payload`.
pub open spec fn decodes_to<T, F: Fn(&Vec<u8>) -> Result<T, String>>(
    decode: F,
    payload: Seq<u8>,
    out: Result<T, String>,
) -> bool {
    exists|p: &Vec<u8>| p@ == payload && #[trigger] decode.ensures((p,), out)
}

/// `messages` are what `decode` makes of the first payloads.
pub open spec fn decoded<T, F: Fn(&Vec<u8>) -> Result<T, String>>(
    decode: F,
    payloads: Seq<Seq<u8>>,
    messages: Seq<T>,
) -> bool {
    &&& messages.len() <= payloads.len()
    &&& forall|i: int|
        0 <= i < messages.len() ==> decodes_to(decode, payloads[i], Ok(#[trigger] messages[i]))
}

/// Decoding failed on one of the payloads after those before it were decoded,
/// and `r` says so.
pub open spec fn decoding_failed<T, F: Fn(&Vec<u8>) -> Result<T, String>>(
    decode: F,
    payloads: Seq<Seq<u8>>,
    r: Result<Vec<T>, CursorSdkError>,
) -> bool {
    exists|before: Seq<T>, e: String|
        {
            &&& #[trigger] decoded(decode, payloads, before)
            &&& before.len() < payloads.len()
            &&& #[trigger] decodes_to(decode, payloads[before.len() as int], Err::<T, String>(e))
            &&& r == Err::<Vec<T>, CursorSdkError>(CursorSdkError::Prost(e))
        }
}

/// `read_end` may read `err` in the payload of an end-of-stream frame.
pub open spec fn reads_end<P: FnOnce(&Vec<u8>) -> Option<ConnectErrorBody>>(
    read_end: P,
    payload: Seq<u8>,
    err: Option<ConnectErrorBody>,
) -> bool {
    exists|p: &Vec<u8>| p@ == payload && #[trigger] read_end.ensures((p,), err)
}

/// Every payload was decoded and the stream closed with `payload`: `r` is the
/// error that `read_end` reads in it, or else the messages.
pub open spec fn closed_outcome<T, P: FnOnce(&Vec<u8>) -> Option<ConnectErrorBody>>(
    service: Seq<char>,
    method: Seq<char>,
    payload: Seq<u8>,
    read_end: P,
    messages: Seq<T>,
    r: Result<Vec<T>, CursorSdkError>,
) -> bool {
    if payload.len() == 0 {
        r is Ok && r->Ok_0@ == messages
    } else {
        exists|err: Option<ConnectErrorBody>| #[trigger]
            reads_end(read_end, payload, err) && match err {
                Some(e) => r is Err && reports(r->Err_0, service, method, e),
                None => r is Ok && r->Ok_0@ == messages,
            }
    }
}

/// Every payload was decoded, and `r` follows from how the stream ends.
pub open spec fn decoding_succeeded<
    T,
    F: Fn(&Vec<u8>) -> Result<T, String>,
    P: FnOnce(&Vec<u8>) -> Option<ConnectErrorBody>,
>(
    service: Seq<char>,
    method: Seq<char>,
    stream: (Seq<Seq<u8>>, StreamEnd),
    decode: F,
    read_end: P,
    r: Result<Vec<T>, CursorSdkError>,
) -> bool {
    exists|messages: Seq<T>|
        {
            &&& #[trigger] decoded(decode, stream.0, messages)
            &&& messages.len() == stream.0.len()
            &&& match stream.1 {
                StreamEnd::Exhausted => r is Ok && r->Ok_0@ == messages,
                StreamEnd::Truncated => r matches Err(CursorSdkError::Message(m)) && m@ == service
                    + "/"@ + method + ": truncated connect frame"@,
                StreamEnd::Closed(payload) => closed_outcome(
                    service,
                    method,
                    payload,
                    read_end,
                    messages,
                    r,
                ),
            }
        }
}

/// Decoding a stream may end with `r`.
pub open spec fn decodes_stream<
    T,
    F: Fn(&Vec<u8>) -> Result<T, String>,
    P: FnOnce(&Vec<u8>) -> Option<ConnectErrorBody>,
>(
    service: Seq<char>,
    method: Seq<char>,
    body: Seq<u8>,
    decode: F,
    read_end: P,
    r: Result<Vec<T>, CursorSdkError>,
) -> bool {
    ||| decoding_failed(decode, stream_in(body).0, r)
    ||| decoding_succeeded(service, method, stream_in(body), decode, read_end, r)
}

/// `decode` takes the payloads of a stream.
pub open spec fn takes_payloads<T, F: Fn(&Vec<u8>) -> Result<T, String>>(
    decode: F,
    payloads: Seq<Seq<u8>>,
) -> bool {
    forall|p: &Vec<u8>| payloads.contains(p@) ==> #[trigger] decode.requires((p,))
}

/// `read_end` takes the payload that closes a stream, if there is one.
pub open spec fn takes_end<P: FnOnce(&Vec<u8>) -> Option<ConnectErrorBody>>(
    read_end: P,
    end: StreamEnd,
) -> bool {
    forall|p: &Vec<u8>|
        p@.len() > 0 && end == StreamEnd::Closed(p@) ==> #[trigger] read_end.requires((p,))
}

/// Decode the messages of a streamed response body.
pub fn decode_connect_stream<
    T,
    F: Fn(&Vec<u8>) -> Result<T, String>,
    P: FnOnce(&Vec<u8>) -> Option<ConnectErrorBody>,
>(service: &str, method: &str, body: &Vec<u8>, decode: F, read_end: P) -> (r: Result<
    Vec<T>,
    CursorSdkError,
>)
    requires
        takes_payloads(decode, stream_in(body@).0),
        takes_end(read_end, stream_in(body@).1),
    ensures
        decodes_stream(service@, method@, body@, decode, read_end, r),
{
    let mut messages: Vec<T> = Vec::new();
    let mut pos: usize = 0;
    let total: usize = body.len();
    let ghost stream = stream_in(body@);
    let ghost mut done: Seq<Seq<u8>> = Seq::empty();
    proof {
        assert(body@.skip(0) =~= body@);
        assert(done + stream_in(body@.skip(0)).0 =~= stream.0);
    }
    while total - pos >= 5
        invariant
            pos <= total,
            total == body@.len(),
            stream == stream_in(body@),
            done.len() == messages@.len(),
            decoded(decode, done, messages@),
            done + stream_in(body@.skip(pos as int)).0 == stream.0,
            stream_in(body@.skip(pos as int)).1 == stream.1,
            takes_payloads(decode, stream.0),
            takes_end(read_end, stream.1),
        decreases total - pos,
    {
        let ghost rest = body@.skip(pos as int);
        let flags: u8 = body[pos];
        let len: u64 = read_len(body, pos + 1);
        proof {
            assert(rest.subrange(1, 5) =~= body@.subrange(pos + 1, pos + 5));
        }
        if ((total - pos - 5) as u64) < len {
            proof {
                assert(!has_frame(rest));
                assert(done + stream_in(rest).0 =~= done);
                assert(decoded(decode, stream.0, messages@));
            }
            let mut why = service.to_owned();
            why.append("/");
            why.append(method);
            why.append(": truncated connect frame");
            return Err(CursorSdkError::message(why));
        }
        let end: usize = pos + 5 + len as usize;
        let payload = copy_range(body, pos + 5, end);
        proof {
            assert(payload@ =~= frame_payload(rest));
            assert(after_frame(rest) =~= body@.skip(end as int));
        }
        if flags & 0x02 != 0 {
            proof {
                assert(stream_in(rest).1 == StreamEnd::Closed(payload@));
                assert(done + stream_in(rest).0 =~= done);
                assert(decoded(decode, stream.0, messages@));
            }
            if payload.len() > 0 {
                let read = read_end(&payload);
                let ghost found = read;
                assert(read_end.ensures((&payload,), found));
                assert(reads_end(read_end, payload@, found));
                match read {
                    Some(err) => return Err(connect_error(service, method, &err)),
                    None => {},
                }
            }
            return Ok(messages);
        }
        if len == 0 {
            pos = end;
            continue;
        }
        proof {
            assert(stream_in(rest).0[0] == payload@);
            assert((done + stream_in(rest).0)[done.len() as int] == payload@);
            assert(stream.0.contains(payload@));
        }
        let out = decode(&payload);
        let ghost o = out;
        proof {
            assert(decode.ensures((&payload,), o));
            assert(decodes_to(decode, payload@, o));
            assert(done.push(payload@) + stream_in(after_frame(rest)).0 =~= done + stream_in(
                rest,
            ).0);
            assert((done.push(payload@) + stream_in(after_frame(rest)).0)[done.len() as int]
                == payload@);
            assert forall|i: int| 0 <= i < messages@.len() implies decodes_to(
                decode,
                stream.0[i],
                Ok(#[trigger] messages@[i]),
            ) by {
                assert((done + stream_in(rest).0)[i] == done[i]);
            }
            assert(decoded(decode, stream.0, messages@));
        }
        match out {
            Ok(message) => {
                let ghost before = messages@;
                messages.push(message);
                proof {
                    assert forall|i: int| 0 <= i < messages@.len() implies decodes_to(
                        decode,
                        done.push(payload@)[i],
                        Ok(#[trigger] messages@[i]),
                    ) by {
                        if i < before.len() {
                            assert(messages@[i] == before[i]);
                            assert(done.push(payload@)[i] == done[i]);
                        }
                    }
                    done = done.push(payload@);
                }
            },
            Err(e) => return Err(CursorSdkError::Prost(e)),
        }
        pos = end;
    }
    proof {
        assert(!has_head(body@.skip(pos as int)));
        assert(done + stream_in(body@.skip(pos as int)).0 =~= done);
        assert(decoded(decode, stream.0, messages@));
    }
    Ok(messages)
}

// -- Replies ----------------------------------------------------------------

/// The outcome of a unary request: the decoded body of a success, and the error
/// in the body of a failure.
pub fn unary_reply<
    T,
    F: FnOnce(&Vec<u8>) -> Result<T, String>,
    P: FnOnce(&Vec<u8>) -> Option<ConnectErrorBody>,
>(service: &str, method: &str, success: bool, body: &Vec<u8>, decode: F, read_error: P) -> (r:
    Result<T, CursorSdkError>)
    requires
        success ==> decode.requires((body,)),
        !success ==> read_error.requires((body,)),
    ensures
        success ==> exists|out: Result<T, String>| #[trigger]
            decode.ensures((body,), out) && match out {
                Ok(v) => r == Ok::<T, CursorSdkError>(v),
                Err(e) => r == Err::<T, CursorSdkError>(CursorSdkError::Prost(e)),
            },
        !success ==> r is Err && body_error(service@, method@, body@, read_error, r->Err_0),
{
    if !success {
        return Err(connect_error_from_body(service, method, body, read_error));
    }
    match decode(body) {
        Ok(v) => Ok(v),
        Err(e) => Err(CursorSdkError::Prost(e)),
    }
}

/// The outcome of a streamed request: the decoded stream of a success, and the
/// error in the body of a failure.
pub fn stream_reply<
    T,
    F: Fn(&Vec<u8>) -> Result<T, String>,
    P: FnOnce(&Vec<u8>) -> Option<ConnectErrorBody>,
    Q: FnOnce(&Vec<u8>) -> Option<ConnectErrorBody>,
>(
    service: &str,
    method: &str,
    success: bool,
    body: &Vec<u8>,
    decode: F,
    read_end: P,
    read_error: Q,
) -> (r: Result<Vec<T>, CursorSdkError>)
    requires
        success ==> takes_payloads(decode, stream_in(body@).0),
        success ==> takes_end(read_end, stream_in(body@).1),
        !success ==> read_error.requires((body,)),
    ensures
        success ==> decodes_stream(service@, method@, body@, decode, read_end, r),
        !success ==> r is Err && body_error(service@, method@, body@, read_error, r->Err_0),
{
    if !success {
        return Err(connect_error_from_body(service, method, body, read_error));
    }
    decode_connect_stream(service, method, body, decode, read_end)
}

// -- Laws -------------------------------------------------------------------

/// The length field of a frame reads as the length it was written for, as long as
/// four bytes can count it.
pub proof fn length_reads_back(n: nat)
    requires
        n < 0x1_0000_0000,
    ensures
        be_value(be_bytes(n)) == n,
{
    let b = be_bytes(n);
    assert(b[0] as nat == n / 0x100_0000 % 0x100);
    assert(b[1] as nat == n / 0x1_0000 % 0x100);
    assert(b[2] as nat == n / 0x100 % 0x100);
    assert(b[3] as nat == n % 0x100);
    assert(n / 0x100_0000 < 0x100);
    assert(n / 0x100_0000 % 0x100 * 0x100_0000 + n / 0x1_0000 % 0x100 * 0x1_0000 + n / 0x100
        % 0x100 * 0x100 + n % 0x100 == n);
}

/// A frame at the beginning of a body is found as it was encoded, whatever
/// follows it.
pub proof fn frame_reads_back(flags: u8, payload: Seq<u8>, rest: Seq<u8>)
    requires
        payload.len() < 0x1_0000_0000,
    ensures
        has_frame(frame_bytes(flags, payload) + rest),
        frame_payload(frame_bytes(flags, payload) + rest) == payload,
        after_frame(frame_bytes(flags, payload) + rest) == rest,
        frames_in(frame_bytes(flags, payload) + rest) == seq![(flags, payload)] + frames_in(rest),
{
    let body = frame_bytes(flags, payload) + rest;
    length_reads_back(payload.len());
    assert(body.subrange(1, 5) =~= be_bytes(payload.len()));
    assert(frame_payload(body) =~= payload);
    assert(after_frame(body) =~= rest);
    assert(body[0] == flags);
}

/// A data frame adds its payload to the stream, a frame without payload adds
/// nothing, and an end-of-stream frame ends it whatever follows.
pub proof fn stream_reads_back(flags: u8, payload: Seq<u8>, rest: Seq<u8>)
    requires
        payload.len() < 0x1_0000_0000,
    ensures
        ({
            let stream = stream_in(frame_bytes(flags, payload) + rest);
            if closes_stream(flags) {
                stream.0.len() == 0 && stream.1 == StreamEnd::Closed(payload)
            } else if payload.len() == 0 {
                stream == stream_in(rest)
            } else {
                stream.0 == seq![payload] + stream_in(rest).0 && stream.1 == stream_in(rest).1
            }
        }),
{
    frame_reads_back(flags, payload, rest);
    let body = frame_bytes(flags, payload) + rest;
    length_reads_back(payload.len());
    assert(body.subrange(1, 5) =~= be_bytes(payload.len()));
    assert(body[0] == flags);
}

/// The bytes of some frames one after the other.
pub open spec fn all_frame_bytes(frames: Seq<(u8, Seq<u8>)>) -> Seq<u8>
    decreases frames.len(),
{
    if frames.len() == 0 {
        Seq::empty()
    } else {
        frame_bytes(frames[0].0, frames[0].1) + all_frame_bytes(frames.drop_first())
    }
}

/// Splitting gives back every frame of a body, in order, and drops an unfinished
/// one at the end.
pub proof fn frames_round_trip(frames: Seq<(u8, Seq<u8>)>, tail: Seq<u8>)
    requires
        forall|i: int| 0 <= i < frames.len() ==> (#[trigger] frames[i]).1.len() < 0x1_0000_0000,
        !has_frame(tail),
    ensures
        frames_in(all_frame_bytes(frames) + tail) == frames,
    decreases frames.len(),
{
    if frames.len() == 0 {
        assert(all_frame_bytes(frames) + tail =~= tail);
        assert(frames_in(tail) =~= frames);
    } else {
        let rest = frames.drop_first();
        assert forall|i: int| 0 <= i < rest.len() implies (#[trigger] rest[i]).1.len()
            < 0x1_0000_0000 by {
            assert(rest[i] == frames[i + 1]);
        }
        frames_round_trip(rest, tail);
        let first = frame_bytes(frames[0].0, frames[0].1);
        assert(all_frame_bytes(frames) + tail =~= first + (all_frame_bytes(rest) + tail));
        frame_reads_back(frames[0].0, frames[0].1, all_frame_bytes(rest) + tail);
        assert(seq![frames[0]] + rest =~= frames);
    }
}

/// The length of a frame is written with its highest byte first.
pub proof fn lengths_are_written_highest_byte_first(a: u8, b: u8, c: u8, d: u8)
    ensures
        be_bytes(
            (a as nat) * 0x100_0000 + (b as nat) * 0x1_0000 + (c as nat) * 0x100 + (d as nat),
        ) == seq![a, b, c, d],
{
    let n = (a as nat) * 0x100_0000 + (b as nat) * 0x1_0000 + (c as nat) * 0x100 + (d as nat);
    assert(n / 0x100_0000 == a as nat);
    assert(n / 0x1_0000 == (a as nat) * 0x100 + (b as nat));
    assert(n / 0x100 == (a as nat) * 0x1_0000 + (b as nat) * 0x100 + (c as nat));
    assert(be_bytes(n) =~= seq![a, b, c, d]);
}

/// A frame is the flags, the length and the payload, in this order, and is five
/// bytes longer than its payload.
pub proof fn frames_begin_with_flags_and_length(flags: u8, payload: Seq<u8>)
    ensures
        frame_bytes(flags, payload).len() == payload.len() + 5,
        frame_bytes(flags, payload)[0] == flags,
        frame_bytes(flags, payload).subrange(1, 5) == be_bytes(payload.len()),
        frame_bytes(flags, payload).skip(5) == payload,
{
    let f = frame_bytes(flags, payload);
    assert(f.subrange(1, 5) =~= be_bytes(payload.len()));
    assert(f.skip(5) =~= payload);
}

/// The second lowest flag ends a stream, whatever the other flags are.
pub proof fn second_flag_ends_the_stream(flags: u8)
    ensures
        closes_stream(flags) <==> (flags / 2) % 2 == 1,
{
    assert((flags & 0x02 != 0) <==> (flags / 2) % 2 == 1) by (bit_vector);
}

/// A body too short for the head of a frame ends the stream; one whose frame is not
/// all there is cut short.
pub proof fn unfinished_streams(body: Seq<u8>)
    ensures
        body.len() < 5 ==> stream_in(body).0.len() == 0 && stream_in(body).1
            == StreamEnd::Exhausted,
        body.len() >= 5 && body.len() < 5 + (body[1] as nat) * 0x100_0000 + (body[2] as nat)
            * 0x1_0000 + (body[3] as nat) * 0x100 + (body[4] as nat) ==> stream_in(body).0.len() == 0
            && stream_in(body).1 == StreamEnd::Truncated,
{
    if body.len() >= 5 {
        let b = body.subrange(1, 5);
        assert(b[0] == body[1] && b[1] == body[2] && b[2] == body[3] && b[3] == body[4]);
    }
}

/// The error that a body reports names the method with its service, keeps the
/// message, and keeps the code unless it is empty.
pub proof fn reported_errors_keep_code_and_message(
    e: CursorSdkError,
    service: Seq<char>,
    method: Seq<char>,
    err: ConnectErrorBody,
)
    requires
        reports(e, service, method, err),
    ensures
        e matches CursorSdkError::Rpc { method: m, code, message, .. } && {
            &&& m@ == service + "/"@ + method
            &&& message@ == err.message@
            &&& err.code@.len() > 0 ==> code@ == err.code@
            &&& err.code@.len() == 0 ==> code@ == "unknown"@
        },
{
}

/// The request id of an error is the text under `requestId` in the first detail
/// that has one, or under `request_id` in a detail without `requestId`.
pub proof fn first_request_id_is_found(details: Seq<Tree>, i: int, id: Seq<char>)
    requires
        0 <= i < details.len(),
        json::member(details[i], "requestId"@) == Some(Tree::Text(id)) || (json::member(
            details[i],
            "requestId"@,
        ) is None && json::member(details[i], "request_id"@) == Some(Tree::Text(id))),
        forall|j: int|
            0 <= j < i ==> json::member(#[trigger] details[j], "requestId"@) is None
                && json::member(details[j], "request_id"@) is None,
    ensures
        first_request_id(details) == Some(id),
{
    lemma_no_request_id(details.take(i));
    assert(details.take(i + 1).drop_last() =~= details.take(i));
    assert(details.take(i + 1).last() == details[i]);
    lemma_first_request_id_counts(details, i + 1);
}

/// Where no detail has either, there is no request id.
pub proof fn lemma_no_request_id(details: Seq<Tree>)
    requires
        forall|j: int|
            0 <= j < details.len() ==> json::member(#[trigger] details[j], "requestId"@) is None
                && json::member(details[j], "request_id"@) is None,
    ensures
        first_request_id(details) is None,
    decreases details.len(),
{
    if details.len() > 0 {
        let rest = details.drop_last();
        assert forall|j: int| 0 <= j < rest.len() implies json::member(
            #[trigger] rest[j],
            "requestId"@,
        ) is None && json::member(rest[j], "request_id"@) is None by {
            assert(rest[j] == details[j]);
        }
        lemma_no_request_id(rest);
        assert(json::member(details[details.len() - 1], "requestId"@) is None);
    }
}

/// Of a body that holds no error, up to 500 characters are shown, the first ones.
pub proof fn unreadable_bodies_are_shown_from_the_start(
    e: CursorSdkError,
    service: Seq<char>,
    method: Seq<char>,
    shown: Seq<char>,
)
    requires
        reports_unreadable(e, service, method, shown),
    ensures
        e matches CursorSdkError::Rpc { method: m, code, message, request_id } && {
            &&& m@ == service + "/"@ + method
            &&& code@ == "unknown"@
            &&& request_id is None
            &&& message@.is_prefix_of(shown)
            &&& shown.len() <= 500 ==> message@ == shown
            &&& shown.len() > 500 ==> message@.len() == 500
        },
{
    let m = first_chars(shown, MAX_SHOWN_BODY as int);
    assert(shown.subrange(0, m.len() as int) =~= m);
}

/// A stream whose every message decodes is given whole and in order, unless it is cut
/// short, which is an error that names the method, or its end reports an error.
pub proof fn whole_streams_are_decoded<
    T,
    F: Fn(&Vec<u8>) -> Result<T, String>,
    P: FnOnce(&Vec<u8>) -> Option<ConnectErrorBody>,
>(
    service: Seq<char>,
    method: Seq<char>,
    body: Seq<u8>,
    decode: F,
    read_end: P,
    r: Result<Vec<T>, CursorSdkError>,
    i: int,
)
    requires
        decodes_stream(service, method, body, decode, read_end, r),
        forall|p: &Vec<u8>, e: String| !#[trigger] decode.ensures((p,), Err::<T, String>(e)),
    ensures
        stream_in(body).1 is Truncated ==> (r matches Err(CursorSdkError::Message(m)) && m@
            == service + "/"@ + method + ": truncated connect frame"@),
        stream_in(body).1 is Exhausted || stream_in(body).1 == StreamEnd::Closed(Seq::<u8>::empty())
            ==> r is Ok,
        r matches Ok(messages) ==> messages@.len() == stream_in(body).0.len() && !(
        stream_in(body).1 is Truncated),
        r matches Ok(messages) ==> 0 <= i < messages@.len() ==> exists|p: &Vec<u8>|
            p@ == stream_in(body).0[i] && #[trigger] decode.ensures(
                (p,),
                Ok::<T, String>(messages@[i]),
            ),
{
    let stream = stream_in(body);
    if decoding_failed(decode, stream.0, r) {
        let (before, e) = choose|before: Seq<T>, e: String|
            {
                &&& #[trigger] decoded(decode, stream.0, before)
                &&& before.len() < stream.0.len()
                &&& #[trigger] decodes_to(decode, stream.0[before.len() as int], Err::<T, String>(e))
                &&& r == Err::<Vec<T>, CursorSdkError>(CursorSdkError::Prost(e))
            };
        let p = choose|p: &Vec<u8>|
            p@ == stream.0[before.len() as int] && #[trigger] decode.ensures(
                (p,),
                Err::<T, String>(e),
            );
        assert(!decode.ensures((p,), Err::<T, String>(e)));
        assert(false);
    }
    let messages = choose|messages: Seq<T>|
        {
            &&& #[trigger] decoded(decode, stream.0, messages)
            &&& messages.len() == stream.0.len()
            &&& match stream.1 {
                StreamEnd::Exhausted => r is Ok && r->Ok_0@ == messages,
                StreamEnd::Truncated => r matches Err(CursorSdkError::Message(m)) && m@ == service
                    + "/"@ + method + ": truncated connect frame"@,
                StreamEnd::Closed(payload) => closed_outcome(
                    service,
                    method,
                    payload,
                    read_end,
                    messages,
                    r,
                ),
            }
        };
    if r is Ok {
        assert(r->Ok_0@ == messages);
        if 0 <= i < messages.len() {
            assert(decodes_to(decode, stream.0[i], Ok(messages[i])));
        }
    }
}

/// The payload that closes a stream is read for an error, which is then reported in
/// place of the messages; without an error in it the messages are given.
pub proof fn closing_error_is_reported<T, P: FnOnce(&Vec<u8>) -> Option<ConnectErrorBody>>(
    service: Seq<char>,
    method: Seq<char>,
    payload: Seq<u8>,
    read_end: P,
    messages: Seq<T>,
    r: Result<Vec<T>, CursorSdkError>,
)
    requires
        closed_outcome(service, method, payload, read_end, messages, r),
    ensures
        payload.len() == 0 ==> r is Ok,
        r matches Ok(given) ==> given@ == messages,
        payload.len() > 0 ==> exists|p: &Vec<u8>, read: Option<ConnectErrorBody>|
            {
                &&& p@ == payload
                &&& #[trigger] read_end.ensures((p,), read)
                &&& read is None <==> r is Ok
                &&& read matches Some(err) ==> (r matches Err(CursorSdkError::Rpc { message, .. })
                    && message@ == err.message@)
            },
{
    if payload.len() > 0 {
        let read = choose|err: Option<ConnectErrorBody>| #[trigger]
            reads_end(read_end, payload, err) && match err {
                Some(e) => r is Err && reports(r->Err_0, service, method, e),
                None => r is Ok && r->Ok_0@ == messages,
            };
        let p = choose|p: &Vec<u8>| p@ == payload && #[trigger] read_end.ensures((p,), read);
        assert(read_end.ensures((p,), read));
    }
}

/// The body of a failed request is read for an error, which is reported with its
/// message.
pub proof fn error_in_the_body_is_reported<P: FnOnce(&Vec<u8>) -> Option<ConnectErrorBody>>(
    service: Seq<char>,
    method: Seq<char>,
    body: Seq<u8>,
    read_error: P,
    e: CursorSdkError,
)
    requires
        body_error(service, method, body, read_error, e),
    ensures
        e matches CursorSdkError::Rpc { method: m, .. } && m@ == service + "/"@ + method,
        exists|b: &Vec<u8>, read: Option<ConnectErrorBody>|
            {
                &&& b@ == body
                &&& #[trigger] read_error.ensures((b,), read)
                &&& read matches Some(err) ==> (e matches CursorSdkError::Rpc { message, .. }
                    && message@ == err.message@)
                &&& read is None ==> (e matches CursorSdkError::Rpc { message, .. }
                    && message@.is_prefix_of(lossy_text(body)))
            },
{
    let (b, read) = choose|b: &Vec<u8>, read: Option<ConnectErrorBody>|
        {
            &&& b@ == body
            &&& #[trigger] read_error.ensures((b,), read)
            &&& match read {
                Some(err) => reports(e, service, method, err),
                None => reports_unreadable(e, service, method, lossy_text(body)),
            }
        };
    if read is None {
        unreadable_bodies_are_shown_from_the_start(e, service, method, lossy_text(body));
    }
    assert(read_error.ensures((b,), read));
}

/// Decoding fails only on a message of the stream that does not decode, and with the
/// reason that was given for it; the messages before it do decode.
pub proof fn failed_decoding_is_reported<
    T,
    F: Fn(&Vec<u8>) -> Result<T, String>,
    P: FnOnce(&Vec<u8>) -> Option<ConnectErrorBody>,
>(
    service: Seq<char>,
    method: Seq<char>,
    body: Seq<u8>,
    decode: F,
    read_end: P,
    r: Result<Vec<T>, CursorSdkError>,
    e: String,
)
    requires
        decodes_stream(service, method, body, decode, read_end, r),
        r == Err::<Vec<T>, CursorSdkError>(CursorSdkError::Prost(e)),
    ensures
        exists|p: &Vec<u8>|
            stream_in(body).0.contains(p@) && #[trigger] decode.ensures((p,), Err::<T, String>(e)),
{
    let stream = stream_in(body);
    assert(!decoding_succeeded(service, method, stream, decode, read_end, r));
    let (before, why) = choose|before: Seq<T>, why: String|
        {
            &&& #[trigger] decoded(decode, stream.0, before)
            &&& before.len() < stream.0.len()
            &&& #[trigger] decodes_to(decode, stream.0[before.len() as int], Err::<T, String>(why))
            &&& r == Err::<Vec<T>, CursorSdkError>(CursorSdkError::Prost(why))
        };
    let p = choose|p: &Vec<u8>|
        p@ == stream.0[before.len() as int] && #[trigger] decode.ensures(
            (p,),
            Err::<T, String>(why),
        );
    assert(stream.0[before.len() as int] == p@);
    assert(decode.ensures((p,), Err::<T, String>(e)));
}

}
