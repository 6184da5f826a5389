//! Framing of MCP messages on standard input and output.
//!
//! Messages are written as one line of JSON each. They are read as such lines
//! too, or as a body behind `Content-Length` header lines.

use vstd::prelude::*;
use vstd::utf8::*;

use serde_json::Value;

use crate::json;
use crate::json::{parse_json, parse_json_bytes, render_json, Tree};
use crate::text;
use crate::transport::copy_range;

verus! {

// -- Writing ----------------------------------------------------------------

/// The line that carries a message.
pub open spec fn written_line(msg: Tree) -> Seq<char> {
    json::rendered_json(msg) + "\n"@
}

/// `line` holds one line feed, and ends with it.
pub open spec fn is_single_line(line: Seq<char>) -> bool {
    &&& line.len() > 0
    &&& line.last() == '\n'
    &&& forall|i: int| 0 <= i < line.len() - 1 ==> #[trigger] line[i] != '\n'
}

/// The line to write for a message. It is a single line, and a value without floats
/// reads back from it as it was.
pub fn write_mcp_message(msg: &Value) -> (r: String)
    ensures
        r@ == written_line(json::json_tree(*msg)),
        is_single_line(r@),
        forall|c: char, depth: nat|
            json::capital(c) && #[trigger] json::lacks(json::json_tree(*msg), c, depth)
                ==> !r@.contains(c),
        json::reads_back(json::json_tree(*msg), json::MAX_JSON_DEPTH as nat) ==> json::reads_as(
            r@.drop_last(),
            json::json_tree(*msg),
        ),
        json::json_tree(*msg) is Object ==> r@[0] == '{' && text::trimmed(r@)
            == json::rendered_json(json::json_tree(*msg)) && text::trimmed_end(r@)
            == json::rendered_json(json::json_tree(*msg)),
        json::json_tree(*msg) is Object && json::reads_back(
            json::json_tree(*msg),
            json::MAX_JSON_DEPTH as nat,
        ) ==> read_line(Seq::empty(), r@) == Some(
            Ok::<Option<Tree>, Seq<char>>(Some(json::json_tree(*msg))),
        ),
        json::json_tree(*msg) is Object && json::reads_back(
            json::json_tree(*msg),
            json::MAX_JSON_DEPTH as nat,
        ) ==> carries(encode_utf8(r@), json::json_tree(*msg)),
{
    let body = render_json(msg);
    let ghost b = body@;
    let mut line = body;
    line.append("\n");
    proof {
        reveal_strlit("\n");
        assert forall|c: char, depth: nat|
            json::capital(c) && #[trigger] json::lacks(
                json::json_tree(*msg),
                c,
                depth,
            ) implies !line@.contains(c) by {
            if line@.contains(c) {
                let i = choose|i: int| 0 <= i < line@.len() && line@[i] == c;
                assert(b[i] == c);
                assert(b.contains(c));
            }
        }
        assert(line@.drop_last() =~= b);
        if json::json_tree(*msg) is Object {
            assert(is_object_line(b));
            assert(line@[0] == b[0]);
            text::lemma_trimmed_noop(b);
            reveal_with_fuel(text::trimmed_start, 2);
            reveal_with_fuel(text::trimmed_end, 2);
            assert(text::trimmed_start(line@) == line@);
            assert(text::trimmed_end(line@) == text::trimmed_end(b));
        }
    }
    line
}

// -- Reading ----------------------------------------------------------------

/// The body length that a header line gives, if it is a `Content-Length` line
/// with a number that fits.
pub open spec fn line_length(line: Seq<char>) -> Option<nat> {
    let colon = text::position(line, ':');
    if !line.contains(':') {
        None
    } else if text::lower(line.take(colon)) != text::lower("content-length"@) {
        None
    } else {
        text::usize_in(text::trimmed(line.skip(colon + 1)))
    }
}

/// The body length that the first of some header lines to give one gives.
pub open spec fn header_length(lines: Seq<Seq<char>>) -> Option<nat>
    decreases lines.len(),
{
    if lines.len() == 0 {
        None
    } else if header_length(lines.drop_last()) is Some {
        header_length(lines.drop_last())
    } else {
        line_length(lines.last())
    }
}

/// A line that ends the header.
pub open spec fn is_blank_line(line: Seq<char>) -> bool {
    line == "\r\n"@ || line == "\n"@
}

/// What a line means after the header lines before it: nothing yet, an error, a
/// message, or (with no message) the body that the header announced.
pub open spec fn read_line(header: Seq<Seq<char>>, line: Seq<char>) -> Option<
    Result<Option<Tree>, Seq<char>>,
> {
    if line.len() > 0 && line[0] == '{' {
        match json::parsed_json(text::trimmed(line)) {
            Ok(t) => Some(Ok(Some(t))),
            Err(e) => Some(Err(e)),
        }
    } else if is_blank_line(line) {
        match header_length(header) {
            Some(_) => Some(Ok(None)),
            None => Some(Err("missing Content-Length"@)),
        }
    } else {
        None
    }
}

spec fn header_texts(lines: Seq<String>) -> Seq<Seq<char>> {
    Seq::new(lines.len(), |i: int| lines[i]@)
}

/// What to do after a line.
pub enum ReadStep {
    /// Read another line.
    NextLine,
    /// Read so many bytes: they are the message.
    Body(usize),
    /// The line was the message.
    Message(Value),
    /// The stream does not hold a message here, for the given reason.
    Failed(String),
}

/// Reads messages line by line.
pub struct MessageReader {
    header: Vec<String>,
}

impl MessageReader {
    /// The header lines read since the last message.
    pub closed spec fn header(&self) -> Seq<Seq<char>> {
        header_texts(self.header@)
    }

    /// A reader at the beginning of a message.
    pub fn new() -> (r: Self)
        ensures
            r.header() == Seq::<Seq<char>>::empty(),
    {
        let reader = MessageReader { header: Vec::new() };
        assert(reader.header() =~= Seq::<Seq<char>>::empty());
        reader
    }

    /// Take in one line, with its line feed.
    pub fn on_line(&mut self, line: &str) -> (r: ReadStep)
        ensures
            match read_line(old(self).header(), line@) {
                None => r is NextLine && final(self).header() == old(self).header().push(line@),
                Some(read) => final(self).header() == Seq::<Seq<char>>::empty() && match read {
                    Ok(Some(t)) => r is Message && json::json_tree(r->Message_0) == t,
                    Ok(None) => r is Body && header_length(old(self).header()) == Some(
                        r->Body_0 as nat,
                    ),
                    Err(e) => r is Failed && r->Failed_0@ == e,
                },
            },
    {
        if text::starts_with(line, "{") {
            proof {
                reveal_strlit("{");
                assert("{"@[0] == line@.subrange(0, 1)[0]);
            }
            self.header = Vec::new();
            assert(self.header() =~= Seq::<Seq<char>>::empty());
            let trimmed = text::trim(line);
            return match parse_json(trimmed.as_str()) {
                Ok(v) => ReadStep::Message(v),
                Err(e) => ReadStep::Failed(e),
            };
        }
        proof {
            reveal_strlit("{");
            if line@.len() > 0 && line@[0] == '{' {
                assert("{"@.is_prefix_of(line@)) by {
                    assert(line@.subrange(0, 1) =~= "{"@);
                }
            }
        }
        if text::same_text(line, "\r\n") || text::same_text(line, "\n") {
            let length = announced_length(&self.header);
            self.header = Vec::new();
            assert(self.header() =~= Seq::<Seq<char>>::empty());
            return match length {
                Some(n) => ReadStep::Body(n),
                None => ReadStep::Failed("missing Content-Length".to_owned()),
            };
        }
        let ghost before = self.header();
        self.header.push(line.to_owned());
        assert(self.header() =~= before.push(line@));
        ReadStep::NextLine
    }
}

fn announced_by(line: &str) -> (r: Option<usize>)
    ensures
        match r {
            Some(n) => line_length(line@) == Some(n as nat),
            None => line_length(line@) is None,
        },
{
    match text::split_once(line, ':') {
        Some((key, value)) => if text::eq_ignore_ascii_case(key.as_str(), "content-length") {
            text::parse_usize(text::trim(value.as_str()).as_str())
        } else {
            None
        },
        None => None,
    }
}

fn announced_length(lines: &Vec<String>) -> (r: Option<usize>)
    ensures
        match r {
            Some(n) => header_length(header_texts(lines@)) == Some(n as nat),
            None => header_length(header_texts(lines@)) is None,
        },
{
    let ghost all = header_texts(lines@);
    let mut i: usize = 0;
    while i < lines.len()
        invariant
            i <= lines@.len(),
            all == header_texts(lines@),
            header_length(all.take(i as int)) is None,
        decreases lines@.len() - i,
    {
        proof {
            assert(all.take(i + 1).drop_last() =~= all.take(i as int));
            assert(all.take(i + 1).last() == lines@[i as int]@);
        }
        let found = announced_by(lines[i].as_str());
        if found.is_some() {
            proof {
                lemma_first_length_counts(all, i + 1);
            }
            return found;
        }
        i += 1;
    }
    assert(all.take(lines@.len() as int) =~= all);
    None
}

proof fn lemma_first_length_counts(lines: Seq<Seq<char>>, i: int)
    requires
        0 <= i <= lines.len(),
        header_length(lines.take(i)) is Some,
    ensures
        header_length(lines) == header_length(lines.take(i)),
    decreases lines.len() - i,
{
    if i < lines.len() {
        assert(lines.take(i + 1).drop_last() =~= lines.take(i));
        lemma_first_length_counts(lines, i + 1);
    } else {
        assert(lines.take(i) =~= lines);
    }
}

/// The message in a body.
pub fn read_body(bytes: &Vec<u8>) -> (r: Result<Value, String>)
    ensures
        json::is_outcome(r, json::body_outcome(bytes@)),
{
    parse_json_bytes(bytes)
}

// -- Reading from a buffer --------------------------------------------------

/// Where the line that begins at `at` ends: behind the next line feed, or at the
/// end of the input.
pub open spec fn line_end(input: Seq<u8>, at: int) -> int
    decreases input.len() - at,
{
    if at >= input.len() {
        at
    } else if input[at] == 10 {
        at + 1
    } else {
        line_end(input, at + 1)
    }
}

/// Every line takes up some of the input, and no more than there is.
pub proof fn lemma_line_end(input: Seq<u8>, at: int)
    requires
        at < input.len(),
    ensures
        at < line_end(input, at) <= input.len(),
    decreases input.len() - at,
{
    reveal_with_fuel(line_end, 2);
    if input[at] != 10 && at + 1 < input.len() {
        lemma_line_end(input, at + 1);
    }
}

/// What `String::from_utf8` says of bytes that are no UTF-8: the text of its
/// `Utf8Error`. A line that `tokio` reads fails with that same error.
pub uninterp spec fn utf8_complaint(bytes: Seq<u8>) -> Seq<char>;

/// What the next message from `at` on reads as, after the given header lines, and
/// where the reading stops. At the end of the input there is no message.
pub open spec fn message_at(input: Seq<u8>, at: int, header: Seq<Seq<char>>) -> (
    Result<Option<Tree>, Seq<char>>,
    int,
)
    decreases input.len() - at,
{
    if at >= input.len() {
        (Ok(None), at)
    } else {
        proof {
            lemma_line_end(input, at);
        }
        let end = line_end(input, at);
        let bytes = input.subrange(at, end);
        if !valid_utf8(bytes) {
            (Err(utf8_complaint(bytes)), end)
        } else {
            match read_line(header, decode_utf8(bytes)) {
                None => message_at(input, end, header.push(decode_utf8(bytes))),
                Some(Err(e)) => (Err(e), end),
                Some(Ok(Some(t))) => (Ok(Some(t)), end),
                Some(Ok(None)) => body_at(input, end, header_length(header)->0),
            }
        }
    }
}

/// What the body of `n` bytes at `at` reads as, and where the reading stops.
pub open spec fn body_at(input: Seq<u8>, at: int, n: nat) -> (
    Result<Option<Tree>, Seq<char>>,
    int,
) {
    if at + n > input.len() {
        (Err("early eof"@), input.len() as int)
    } else {
        match json::body_outcome(input.subrange(at, at + n)) {
            Ok(t) => (Ok(Some(t)), at + n),
            Err(e) => (Err(e), at + n),
        }
    }
}

/// `r` is the reading `named`.
pub open spec fn is_reading(
    r: Result<Option<Value>, String>,
    named: Result<Option<Tree>, Seq<char>>,
) -> bool {
    match r {
        Ok(Some(v)) => named == Ok::<Option<Tree>, Seq<char>>(Some(json::json_tree(v))),
        Ok(None) => named == Ok::<Option<Tree>, Seq<char>>(None),
        Err(e) => named == Err::<Option<Tree>, Seq<char>>(e@),
    }
}

/// `r` is the text that the bytes encode, or `complaint` if they are no UTF-8.
pub open spec fn is_utf8_text(
    r: Result<String, String>,
    bytes: Seq<u8>,
    complaint: Seq<char>,
) -> bool {
    match r {
        Ok(s) => valid_utf8(bytes) && s@ == decode_utf8(bytes),
        Err(e) => !valid_utf8(bytes) && e@ == complaint,
    }
}

/// `String::from_utf8`, its `Utf8Error` turned into its message: the text that the
/// bytes encode, or an error if they are no UTF-8. The wording of the error is
/// left unsaid.
#[verifier::external_body]
fn utf8_text(bytes: Vec<u8>) -> (r: Result<String, String>)
    ensures
        is_utf8_text(r, bytes@, utf8_complaint(bytes@)),
{
    String::from_utf8(bytes).map_err(|e| e.utf8_error().to_string())
}

fn end_of_line(input: &Vec<u8>, at: usize) -> (r: usize)
    requires
        at < input@.len(),
    ensures
        r == line_end(input@, at as int),
        at < r <= input@.len(),
{
    let mut i: usize = at;
    while i < input.len() && input[i] != 10
        invariant
            at <= i <= input@.len(),
            line_end(input@, i as int) == line_end(input@, at as int),
        decreases input@.len() - i,
    {
        i += 1;
    }
    proof {
        lemma_line_end(input@, at as int);
    }
    if i < input.len() {
        i + 1
    } else {
        i
    }
}

/// Read the next message of `input` from `at` on, and say where the reading
/// stopped. There is no message at the end of the input.
pub fn read_mcp_message(input: &Vec<u8>, at: usize) -> (r: (Result<Option<Value>, String>, usize))
    ensures
        is_reading(r.0, message_at(input@, at as int, Seq::empty()).0),
        r.1 == message_at(input@, at as int, Seq::empty()).1,
{
    let mut reader = MessageReader::new();
    let mut i: usize = at;
    while i < input.len()
        invariant
            message_at(input@, at as int, Seq::empty()) == message_at(
                input@,
                i as int,
                reader.header(),
            ),
        decreases input@.len() - i,
    {
        let end = end_of_line(input, i);
        let line = match utf8_text(copy_range(input, i, end)) {
            Ok(line) => line,
            Err(e) => {
                return (Err(e), end);
            },
        };
        match reader.on_line(line.as_str()) {
            ReadStep::NextLine => {},
            ReadStep::Message(v) => {
                return (Ok(Some(v)), end);
            },
            ReadStep::Failed(e) => {
                return (Err(e), end);
            },
            ReadStep::Body(n) => {
                if n > input.len() - end {
                    return (Err("early eof".to_owned()), input.len());
                }
                return match read_body(&copy_range(input, end, end + n)) {
                    Ok(v) => (Ok(Some(v)), end + n),
                    Err(e) => (Err(e), end + n),
                };
            },
        }
        i = end;
    }
    (Ok(None), i)
}

// -- Laws -------------------------------------------------------------------

/// A `Content-Length` header announces the length it writes, for every length
/// that fits.
pub proof fn content_length_is_announced(n: nat)
    requires
        n <= usize::MAX,
    ensures
        line_length("Content-Length: "@ + text::decimal(n) + "\r\n"@) == Some(n),
{
    reveal_strlit("Content-Length: ");
    reveal_strlit("content-length");
    reveal_strlit("\r\n");
    let d = text::decimal(n);
    let line = "Content-Length: "@ + d + "\r\n"@;
    text::lemma_position(line, ':');
    assert(line[14] == ':');
    assert(line.contains(':'));
    let colon = text::position(line, ':');
    assert(text::first_at(line, ':', colon));
    assert(colon == 14) by {
        if colon < 14 {
            assert(line[colon] == "Content-Length: "@[colon]);
        }
    }
    assert(text::lower(line.take(14)) =~= text::lower("content-length"@));
    text::decimal_reads_back(n);
    text::lemma_numeral_not_empty(n, 10);
    let value = line.skip(15);
    assert(value =~= seq![' '] + d + seq!['\r', '\n']);
    let t1 = value.drop_first();
    assert(t1 =~= d + seq!['\r', '\n']);
    assert(t1[0] == d[0]);
    reveal_with_fuel(text::trimmed_start, 3);
    assert(text::trimmed_start(value) == t1);
    let t2 = t1.drop_last();
    let t3 = t2.drop_last();
    assert(t3 =~= d);
    assert(t3.last() == d[d.len() - 1]);
    assert(text::is_digit(d[d.len() - 1]));
    reveal_with_fuel(text::trimmed_end, 4);
    assert(text::trimmed_end(t1) == d);
}

/// `json` is the text of an object on one line.
pub open spec fn is_object_line(json: Seq<char>) -> bool {
    &&& json.len() >= 2
    &&& json[0] == '{'
    &&& json.last() == '}'
    &&& forall|i: int| 0 <= i < json.len() ==> #[trigger] json[i] != '\n'
}

/// The bytes that carry `json` as a line.
pub open spec fn line_chunk(json: Seq<char>) -> Seq<u8> {
    encode_utf8(json + "\n"@)
}

/// The bytes that carry `json` behind a header that gives its length in bytes.
pub open spec fn framed_chunk(json: Seq<char>) -> Seq<u8> {
    encode_utf8(
        "Content-Length: "@ + text::decimal(encode_utf8(json).len()) + "\r\n"@,
    ) + encode_utf8("\r\n"@) + encode_utf8(json)
}

/// `chunk` is one of the two forms in which `json` is carried. Only an object can
/// stand on a line.
pub open spec fn is_carried_as(json: Seq<char>, chunk: Seq<u8>) -> bool {
    ||| is_object_line(json) && chunk == line_chunk(json)
    ||| encode_utf8(json).len() <= usize::MAX && chunk == framed_chunk(json)
}

/// `chunk` carries the message `msg`, in one form or the other.
pub open spec fn carries(chunk: Seq<u8>, msg: Tree) -> bool {
    exists|json: Seq<char>| #[trigger] json::reads_as(json, msg) && is_carried_as(json, chunk)
}

/// The chunks one behind the other.
pub open spec fn joined_chunks(chunks: Seq<Seq<u8>>) -> Seq<u8>
    decreases chunks.len(),
{
    if chunks.len() == 0 {
        Seq::empty()
    } else {
        chunks[0] + joined_chunks(chunks.drop_first())
    }
}

/// Reading one message after the other from `at` on gives `msgs` in their order,
/// and the end of the input after them.
pub open spec fn reads_in_order(input: Seq<u8>, at: int, msgs: Seq<Tree>) -> bool
    decreases msgs.len(),
{
    let next = message_at(input, at, Seq::empty());
    if msgs.len() == 0 {
        next.0 == Ok::<Option<Tree>, Seq<char>>(None)
    } else {
        &&& next.0 == Ok::<Option<Tree>, Seq<char>>(Some(msgs[0]))
        &&& reads_in_order(input, next.1, msgs.drop_first())
    }
}

proof fn lemma_encode_add(a: Seq<char>, b: Seq<char>)
    ensures
        encode_utf8(a + b) == encode_utf8(a) + encode_utf8(b),
    decreases a.len(),
{
    if a.len() == 0 {
        assert(a + b =~= b);
        assert(encode_utf8(a) + encode_utf8(b) =~= encode_utf8(b));
    } else {
        assert((a + b).drop_first() =~= a.drop_first() + b);
        lemma_encode_add(a.drop_first(), b);
        assert(encode_utf8(a + b) =~= encode_utf8(a) + encode_utf8(b));
    }
}

proof fn lemma_encode_line_feed()
    ensures
        encode_utf8("\n"@) == seq![10u8],
{
    reveal_strlit("\n");
    assert(is_ascii_chars("\n"@));
    is_ascii_chars_encode_utf8("\n"@);
    assert(encode_utf8("\n"@)[0] == "\n"@[0] as u8);
    assert(encode_utf8("\n"@) =~= seq![10u8]);
}

proof fn lemma_scalar_bytes(c: u32)
    requires
        is_scalar(c),
        c != 10,
    ensures
        forall|i: int| 0 <= i < encode_scalar(c).len() ==> #[trigger] encode_scalar(c)[i] != 10,
{
    if has_width_1_encoding(c) {
        assert((c & 0x7F) as u8 != 10u8) by (bit_vector)
            requires
                c <= 0x7F,
                c != 10,
        ;
    } else {
        assert((0xC0u8 | ((c >> 6) & 0x1F) as u8) != 10u8) by (bit_vector);
        assert((0xE0u8 | ((c >> 12) & 0x0F) as u8) != 10u8) by (bit_vector);
        assert((0xF0u8 | ((c >> 18) & 0x7) as u8) != 10u8) by (bit_vector);
        assert((0x80u8 | (c & 0x3F) as u8) != 10u8) by (bit_vector);
        assert((0x80u8 | ((c >> 6) & 0x3F) as u8) != 10u8) by (bit_vector);
        assert((0x80u8 | ((c >> 12) & 0x3F) as u8) != 10u8) by (bit_vector);
    }
}

proof fn lemma_no_line_feed(s: Seq<char>)
    requires
        forall|i: int| 0 <= i < s.len() ==> #[trigger] s[i] != '\n',
    ensures
        forall|i: int| 0 <= i < encode_utf8(s).len() ==> #[trigger] encode_utf8(s)[i] != 10,
    decreases s.len(),
{
    if s.len() > 0 {
        let rest = s.drop_first();
        assert forall|i: int| 0 <= i < rest.len() implies #[trigger] rest[i] != '\n' by {
            assert(rest[i] == s[i + 1]);
        }
        lemma_no_line_feed(rest);
        assert(s[0] != '\n');
        let c = s[0] as u32;
        char_is_scalar(s[0]);
        char_u32_cast(s[0], c);
        char_u32_cast('\n', 10u32);
        lemma_scalar_bytes(c);
        let head = encode_scalar(c);
        assert(encode_utf8(s) == head + encode_utf8(rest));
        assert forall|i: int| 0 <= i < encode_utf8(s).len() implies #[trigger] encode_utf8(s)[i]
            != 10 by {
            if i < head.len() {
                assert(encode_utf8(s)[i] == head[i]);
            } else {
                assert(encode_utf8(s)[i] == encode_utf8(rest)[i - head.len()]);
            }
        }
    }
}

proof fn lemma_line_ends_at(input: Seq<u8>, at: int, end: int)
    requires
        0 <= at < end <= input.len(),
        input[end - 1] == 10,
        forall|i: int| at <= i < end - 1 ==> #[trigger] input[i] != 10,
    ensures
        line_end(input, at) == end,
    decreases end - at,
{
    if at < end - 1 {
        lemma_line_ends_at(input, at + 1, end);
    }
}

/// A line of text at `at` is read as that line.
proof fn lemma_line_is_read(input: Seq<u8>, at: int, line: Seq<char>)
    requires
        0 <= at,
        at + encode_utf8(line).len() <= input.len(),
        input.subrange(at, at + encode_utf8(line).len()) == encode_utf8(line),
        is_single_line(line),
    ensures
        line_end(input, at) == at + encode_utf8(line).len(),
        at < line_end(input, at),
        valid_utf8(input.subrange(at, line_end(input, at))),
        decode_utf8(input.subrange(at, line_end(input, at))) == line,
{
    reveal_strlit("\n");
    let body = line.drop_last();
    assert(line =~= body + "\n"@);
    lemma_encode_add(body, "\n"@);
    lemma_encode_line_feed();
    assert forall|i: int| 0 <= i < body.len() implies #[trigger] body[i] != '\n' by {
        assert(body[i] == line[i]);
    }
    lemma_no_line_feed(body);
    let bytes = encode_utf8(line);
    let end = at + bytes.len();
    assert(input.subrange(at, end)[bytes.len() - 1] == 10);
    assert forall|i: int| at <= i < end - 1 implies #[trigger] input[i] != 10 by {
        assert(input[i] == input.subrange(at, end)[i - at]);
        assert(bytes[i - at] == encode_utf8(body)[i - at]);
    }
    lemma_line_ends_at(input, at, end);
    encode_utf8_valid_utf8(line);
    encode_utf8_decode_utf8(line);
}

proof fn lemma_trimmed_line(json: Seq<char>)
    requires
        is_object_line(json),
    ensures
        text::trimmed(json + "\n"@) == json,
{
    reveal_strlit("\n");
    let line = json + "\n"@;
    assert(line.drop_last() =~= json);
    assert(line[0] == json[0]);
    text::lemma_trimmed_noop(json);
    reveal_with_fuel(text::trimmed_start, 2);
    reveal_with_fuel(text::trimmed_end, 2);
    assert(text::trimmed_start(line) == line);
    assert(text::trimmed_end(line) == text::trimmed_end(json));
}

proof fn lemma_line_chunk(input: Seq<u8>, at: int, json: Seq<char>, msg: Tree)
    requires
        0 <= at,
        is_object_line(json),
        json::reads_as(json, msg),
        at + line_chunk(json).len() <= input.len(),
        input.subrange(at, at + line_chunk(json).len()) == line_chunk(json),
    ensures
        message_at(input, at, Seq::empty()) == (
            Ok::<Option<Tree>, Seq<char>>(Some(msg)),
            at + line_chunk(json).len(),
        ),
{
    reveal_strlit("\n");
    let line = json + "\n"@;
    assert forall|i: int| 0 <= i < line.len() - 1 implies #[trigger] line[i] != '\n' by {
        assert(line[i] == json[i]);
    }
    lemma_line_is_read(input, at, line);
    lemma_trimmed_line(json);
    assert(line[0] == '{');
    assert(read_line(Seq::empty(), line) == Some(Ok::<Option<Tree>, Seq<char>>(Some(msg))));
}

proof fn lemma_framed_chunk(input: Seq<u8>, at: int, json: Seq<char>, msg: Tree)
    requires
        0 <= at,
        json::reads_as(json, msg),
        encode_utf8(json).len() <= usize::MAX,
        at + framed_chunk(json).len() <= input.len(),
        input.subrange(at, at + framed_chunk(json).len()) == framed_chunk(json),
    ensures
        message_at(input, at, Seq::empty()) == (
            Ok::<Option<Tree>, Seq<char>>(Some(msg)),
            at + framed_chunk(json).len(),
        ),
{
    reveal_strlit("Content-Length: ");
    reveal_strlit("\r\n");
    reveal_strlit("\n");
    let n = encode_utf8(json).len();
    let d = text::decimal(n);
    let first = "Content-Length: "@ + d + "\r\n"@;
    let blank = "\r\n"@;
    let chunk = framed_chunk(json);
    let a = encode_utf8(first);
    let b = encode_utf8(blank);
    let c = encode_utf8(json);
    assert(chunk == a + b + c);
    let whole = input.subrange(at, at + chunk.len());
    text::decimal_reads_back(n);
    assert forall|i: int| 0 <= i < first.len() - 1 implies #[trigger] first[i] != '\n' by {
        if 16 <= i < 16 + d.len() {
            assert(first[i] == d[i - 16]);
            assert(text::is_digit(d[i - 16]));
        } else if i < 16 {
            assert(first[i] == "Content-Length: "@[i]);
        }
    }
    assert(input.subrange(at, at + a.len()) =~= a) by {
        assert(whole.subrange(0, a.len() as int) =~= a);
    }
    lemma_line_is_read(input, at, first);
    let mid = at + a.len();
    assert(input.subrange(mid, mid + b.len()) =~= b) by {
        assert(whole.subrange(a.len() as int, (a.len() + b.len()) as int) =~= b);
    }
    lemma_line_is_read(input, mid, blank);
    let end = mid + b.len();
    assert(input.subrange(end, end + n) =~= c) by {
        assert(whole.subrange((a.len() + b.len()) as int, chunk.len() as int) =~= c);
    }
    let none = Seq::<Seq<char>>::empty();
    let header = none.push(first);
    assert(first[0] == 'C');
    assert(read_line(none, first) is None);
    assert(message_at(input, at, none) == message_at(input, mid, header));
    content_length_is_announced(n);
    assert(header.drop_last() =~= none);
    assert(header.last() == first);
    assert(header_length(none) is None);
    assert(header_length(header) == Some(n));
    assert(read_line(header, blank) == Some(Ok::<Option<Tree>, Seq<char>>(None)));
    assert(message_at(input, mid, header) == body_at(input, end, n));
    encode_utf8_valid_utf8(json);
    encode_utf8_decode_utf8(json);
}

proof fn lemma_chunk_is_read(input: Seq<u8>, at: int, chunk: Seq<u8>, msg: Tree)
    requires
        0 <= at,
        carries(chunk, msg),
        at + chunk.len() <= input.len(),
        input.subrange(at, at + chunk.len()) == chunk,
    ensures
        message_at(input, at, Seq::empty()) == (
            Ok::<Option<Tree>, Seq<char>>(Some(msg)),
            at + chunk.len(),
        ),
{
    let json = choose|json: Seq<char>| #[trigger]
        json::reads_as(json, msg) && is_carried_as(json, chunk);
    if is_object_line(json) && chunk == line_chunk(json) {
        lemma_line_chunk(input, at, json, msg);
    } else {
        lemma_framed_chunk(input, at, json, msg);
    }
}

proof fn lemma_chunks_are_read(before: Seq<u8>, chunks: Seq<Seq<u8>>, msgs: Seq<Tree>)
    requires
        chunks.len() == msgs.len(),
        forall|i: int| 0 <= i < chunks.len() ==> carries(#[trigger] chunks[i], msgs[i]),
    ensures
        reads_in_order(before + joined_chunks(chunks), before.len() as int, msgs),
    decreases chunks.len(),
{
    let input = before + joined_chunks(chunks);
    let at = before.len() as int;
    if chunks.len() > 0 {
        let chunk = chunks[0];
        let rest = chunks.drop_first();
        assert(input.subrange(at, at + chunk.len()) =~= chunk);
        lemma_chunk_is_read(input, at, chunk, msgs[0]);
        assert forall|i: int| 0 <= i < rest.len() implies carries(
            #[trigger] rest[i],
            msgs.drop_first()[i],
        ) by {
            assert(rest[i] == chunks[i + 1]);
        }
        lemma_chunks_are_read(before + chunk, rest, msgs.drop_first());
        assert((before + chunk) + joined_chunks(rest) =~= input);
    }
}

/// Messages that stand one behind the other in a stream, each as a line or behind
/// a `Content-Length` header, are read in their order, and then comes the end.
pub proof fn messages_are_read_in_order(chunks: Seq<Seq<u8>>, msgs: Seq<Tree>)
    requires
        chunks.len() == msgs.len(),
        forall|i: int| 0 <= i < chunks.len() ==> carries(#[trigger] chunks[i], msgs[i]),
    ensures
        reads_in_order(joined_chunks(chunks), 0, msgs),
{
    let none = Seq::<u8>::empty();
    lemma_chunks_are_read(none, chunks, msgs);
    assert(none + joined_chunks(chunks) =~= joined_chunks(chunks));
}

/// A header line gives the length of the body if its name is `Content-Length` in
/// any ASCII case, directly before the first colon, and what follows is a number
/// but for white space; any other line gives none.
pub proof fn header_names_go_by_any_case(name: Seq<char>, value: Seq<char>)
    requires
        !name.contains(':'),
    ensures
        text::lower(name) == text::lower("Content-Length"@) ==> line_length(
            name + seq![':'] + value,
        ) == text::usize_in(text::trimmed(value)),
        text::lower(name) != text::lower("Content-Length"@) ==> line_length(
            name + seq![':'] + value,
        ) is None,
        line_length(name) is None,
{
    reveal_strlit("Content-Length");
    reveal_strlit("content-length");
    assert(text::lower("Content-Length"@) =~= text::lower("content-length"@));
    let line = name + seq![':'] + value;
    text::first_place_is_found(name, ':', value);
    assert(line[name.len() as int] == ':');
    assert(line.contains(':'));
    assert(line.take(name.len() as int) =~= name);
    assert(line.skip(name.len() as int + 1) =~= value);
}

/// The first header line that gives a length counts, wherever it stands.
pub proof fn first_announced_length_counts(lines: Seq<Seq<char>>, i: int)
    requires
        0 <= i <= lines.len(),
        forall|j: int| 0 <= j < i ==> line_length(#[trigger] lines[j]) is None,
        i < lines.len() ==> line_length(lines[i]) is Some,
    ensures
        i < lines.len() ==> header_length(lines) == line_length(lines[i]),
        i == lines.len() ==> header_length(lines) is None,
{
    lemma_no_length(lines.take(i));
    if i < lines.len() {
        assert(lines.take(i + 1).drop_last() =~= lines.take(i));
        assert(lines.take(i + 1).last() == lines[i]);
        lemma_first_length_counts(lines, i + 1);
    } else {
        assert(lines.take(i) =~= lines);
    }
}

proof fn lemma_no_length(lines: Seq<Seq<char>>)
    requires
        forall|j: int| 0 <= j < lines.len() ==> line_length(#[trigger] lines[j]) is None,
    ensures
        header_length(lines) is None,
    decreases lines.len(),
{
    if lines.len() > 0 {
        let rest = lines.drop_last();
        assert forall|j: int| 0 <= j < rest.len() implies line_length(#[trigger] rest[j]) is None by {
            assert(rest[j] == lines[j]);
        }
        lemma_no_length(rest);
        assert(line_length(lines[lines.len() - 1]) is None);
    }
}

}
