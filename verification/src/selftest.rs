//! In-process check of the peers MCP server (`grok peers-mcp --selftest`).

use vstd::prelude::*;

use serde_json::Value;

use crate::inbox::{InboxEnvelope, InboxSendError};
use crate::json;
use crate::json::{
    json_bool, json_get, json_integer, json_text, get_text, parse_json, render_json, Fields, Tree,
};
use crate::mcp;
use crate::mcp::{handle_mcp_message, PeerIdentity};
use crate::registry::PeerRecord;
use crate::replies;
use crate::replies::{missing_tools, offers_peer_tools, tool_names};
use crate::stdio;
use crate::stdio::write_mcp_message;
use crate::text;

verus! {

/// The protocol version that the check asks for.
pub const PROBED_VERSION: &'static str = "2025-06-18";

/// The version in a reply to `initialize`.
pub open spec fn answered_version(reply: Tree) -> Option<Seq<char>> {
    json::as_text(json::member_of(json::member(reply, "result"@), "protocolVersion"@))
}

/// The verdict on a written line.
pub open spec fn line_verdict(line: Seq<char>) -> Result<(), Seq<char>> {
    if text::has_text(line, "Content-Length"@) {
        Err("stdio MCP still emits Content-Length framing"@)
    } else if line.len() == 0 || line.last() != '\n' || text::without_trailing(
        line,
        '\n',
    ).contains('\n') {
        Err("stdio MCP response is not a single NDJSON line"@)
    } else {
        match json::parsed_json(text::trimmed_end(line)) {
            Ok(_) => Ok(()),
            Err(e) => Err(e),
        }
    }
}

/// The verdict on the reply to `initialize`.
pub open spec fn initialize_verdict(reply: Option<Tree>) -> Result<(), Seq<char>> {
    match reply {
        None => Err("initialize produced no response"@),
        Some(init) => if answered_version(init) == Some(PROBED_VERSION@) {
            Ok(())
        } else {
            Err("initialize did not echo protocolVersion: "@ + json::rendered_json(init))
        },
    }
}

/// The verdict on the reply to `tools/list`.
pub open spec fn tools_verdict(reply: Option<Tree>) -> Result<(), Seq<char>> {
    match reply {
        None => Err("tools/list produced no response"@),
        Some(listed) => match replies::listed_names(listed) {
            None => Err("tools/list missing tools array"@),
            Some(names) => if replies::has_peer_tools(names) {
                Ok(())
            } else {
                Err(replies::missing_tools_message(names))
            },
        },
    }
}

/// `r` is the verdict `v`.
pub open spec fn is_verdict(r: Result<(), String>, v: Result<(), Seq<char>>) -> bool {
    match r {
        Ok(_) => v is Ok,
        Err(e) => v == Err::<(), Seq<char>>(e@),
    }
}

/// The contents of an optional value.
pub open spec fn opt_tree(v: Option<Value>) -> Option<Tree> {
    match v {
        Some(x) => Some(json::json_tree(x)),
        None => None,
    }
}

/// Check that a line is newline-delimited JSON.
pub fn check_line(line: &str) -> (r: Result<(), String>)
    ensures
        is_verdict(r, line_verdict(line@)),
{
    if text::contains(line, "Content-Length") {
        return Err("stdio MCP still emits Content-Length framing".to_owned());
    }
    let stripped = text::trim_end_char(line, '\n');
    if !ends_with_newline(line) || has_newline(stripped.as_str()) {
        return Err("stdio MCP response is not a single NDJSON line".to_owned());
    }
    match parse_json(text::trim_end(line).as_str()) {
        Ok(_) => Ok(()),
        Err(e) => Err(e),
    }
}

fn ends_with_newline(line: &str) -> (r: bool)
    ensures
        r == (line@.len() > 0 && line@.last() == '\n'),
{
    let chars = text::chars_of(line);
    chars.len() > 0 && chars[chars.len() - 1] == '\n'
}

fn has_newline(s: &str) -> (r: bool)
    ensures
        r == s@.contains('\n'),
{
    text::split_once(s, '\n').is_some()
}

/// Check the reply to `initialize`.
pub fn check_initialize(reply: Option<Value>) -> (r: Result<(), String>)
    ensures
        is_verdict(r, initialize_verdict(opt_tree(reply))),
{
    let init = match reply {
        Some(v) => v,
        None => return Err("initialize produced no response".to_owned()),
    };
    let version = match json_get(&init, "result") {
        Some(result) => get_text(result, "protocolVersion"),
        None => None,
    };
    let echoed: bool = match version {
        Some(v) => text::same_text(v.as_str(), PROBED_VERSION),
        None => false,
    };
    if echoed {
        Ok(())
    } else {
        Err(
            "initialize did not echo protocolVersion: ".to_owned().concat(
                render_json(&init).as_str(),
            ),
        )
    }
}

/// Check the reply to `tools/list`.
pub fn check_tools(reply: Option<Value>) -> (r: Result<(), String>)
    ensures
        is_verdict(r, tools_verdict(opt_tree(reply))),
{
    let listed = match reply {
        Some(v) => v,
        None => return Err("tools/list produced no response".to_owned()),
    };
    let names = match tool_names(&listed) {
        Some(names) => names,
        None => return Err("tools/list missing tools array".to_owned()),
    };
    if offers_peer_tools(&names) {
        Ok(())
    } else {
        Err(missing_tools(&names))
    }
}

/// The message that the check writes.
pub open spec fn sample_tree() -> Tree {
    mcp::result_tree(
        Tree::Integer(1),
        Tree::Object(Map::empty().insert("ok"@, Tree::Bool(true))),
    )
}

/// The `initialize` request that the check makes.
pub open spec fn initialize_request_tree() -> Tree {
    Tree::Object(
        Map::empty().insert("jsonrpc"@, Tree::Text("2.0"@)).insert("id"@, Tree::Integer(1)).insert(
            "method"@,
            Tree::Text("initialize"@),
        ).insert(
            "params"@,
            Tree::Object(Map::empty().insert("protocolVersion"@, Tree::Text(PROBED_VERSION@))),
        ),
    )
}

/// The `tools/list` request that the check makes.
pub open spec fn tools_request_tree() -> Tree {
    Tree::Object(
        Map::empty().insert("jsonrpc"@, Tree::Text("2.0"@)).insert("id"@, Tree::Integer(2)).insert(
            "method"@,
            Tree::Text("tools/list"@),
        ),
    )
}

fn sample() -> (r: Value)
    ensures
        json::json_tree(r) == sample_tree(),
{
    let mut result = Fields::new();
    result.put("ok", json_bool(true));
    let mut msg = Fields::new();
    msg.put("jsonrpc", json_text("2.0".to_owned()));
    msg.put("id", json_integer(1));
    msg.put("result", result.build());
    msg.build()
}

fn initialize_request() -> (r: Value)
    ensures
        json::json_tree(r) == initialize_request_tree(),
{
    let mut params = Fields::new();
    params.put("protocolVersion", json_text(PROBED_VERSION.to_owned()));
    let mut msg = Fields::new();
    msg.put("jsonrpc", json_text("2.0".to_owned()));
    msg.put("id", json_integer(1));
    msg.put("method", json_text("initialize".to_owned()));
    msg.put("params", params.build());
    msg.build()
}

/// A `tools/list` request with id 2.
pub(crate) fn tools_request() -> (r: Value)
    ensures
        json::json_tree(r) == tools_request_tree(),
{
    let mut msg = Fields::new();
    msg.put("jsonrpc", json_text("2.0".to_owned()));
    msg.put("id", json_integer(2));
    msg.put("method", json_text("tools/list".to_owned()));
    msg.build()
}

proof fn lemma_sample_reads_back()
    ensures
        json::reads_back(sample_tree(), json::MAX_JSON_DEPTH as nat),
{
    reveal_with_fuel(json::reads_back, 3);
    let inner = Map::<Seq<char>, Tree>::empty().insert("ok"@, Tree::Bool(true));
    assert(json::reads_back(Tree::Object(inner), 126));
}

proof fn lemma_sample_has_no_header()
    ensures
        json::lacks(sample_tree(), 'C', 2),
{
    reveal_with_fuel(json::lacks, 3);
    reveal_strlit("jsonrpc");
    reveal_strlit("2.0");
    reveal_strlit("id");
    reveal_strlit("result");
    reveal_strlit("ok");
    let inner = Map::<Seq<char>, Tree>::empty().insert("ok"@, Tree::Bool(true));
    assert(json::lacks(Tree::Object(inner), 'C', 1));
}

proof fn lemma_no_header_without_capital(line: Seq<char>)
    requires
        !line.contains('C'),
    ensures
        !text::has_text(line, "Content-Length"@),
{
    reveal_strlit("Content-Length");
    assert("Content-Length"@[0] == 'C');
}

/// Member names that occur together in a message are told apart.
pub(crate) proof fn lemma_request_keys()
    ensures
        "id"@ != "jsonrpc"@,
        "id"@ != "method"@,
        "id"@ != "params"@,
        "method"@ != "params"@,
        "protocolVersion"@ != "capabilities"@,
        "protocolVersion"@ != "serverInfo"@,
        "initialize"@ != "tools/call"@,
        "tools/list"@ != "tools/call"@,
        "tools/list"@ != "initialize"@,
        "tools/list"@ != "ping"@,
{
    reveal_strlit("id");
    reveal_strlit("jsonrpc");
    reveal_strlit("method");
    reveal_strlit("params");
    reveal_strlit("protocolVersion");
    reveal_strlit("capabilities");
    reveal_strlit("serverInfo");
    reveal_strlit("initialize");
    reveal_strlit("tools/call");
    reveal_strlit("tools/list");
    reveal_strlit("ping");
    assert("id"@.len() == 2);
    assert("method"@[0] == 'm');
    assert("params"@[0] == 'p');
    assert("protocolVersion"@[0] == 'p');
    assert("capabilities"@[0] == 'c');
    assert("serverInfo"@[0] == 's');
    assert("initialize"@[0] == 'i');
    assert("tools/call"@[6] == 'c');
    assert("tools/list"@[6] == 'l');
    assert("tools/list"@[0] == 't');
    assert("tools/call"@[0] == 't');
    assert("ping"@[0] == 'p');
}

/// The server answers the `initialize` request of the check with the version it
/// asked for.
pub proof fn server_passes_initialize()
    ensures
        initialize_verdict(
            Some(mcp::plain_response(initialize_request_tree(), Tree::Integer(1))),
        ) is Ok,
{
    lemma_request_keys();
}

/// The server answers the `tools/list` request of the check with both tools.
pub proof fn server_passes_tools()
    ensures
        tools_verdict(Some(mcp::plain_response(tools_request_tree(), Tree::Integer(2)))) is Ok,
{
    lemma_request_keys();
    replies::server_lists_peer_tools(Tree::Integer(2));
}

/// The verdict of the whole check: on the line that is written for the sample, then
/// on the server's reply to `initialize`, then on its reply to `tools/list`. The
/// first fault counts.
pub open spec fn selftest_verdict() -> Result<(), Seq<char>> {
    match line_verdict(stdio::written_line(sample_tree())) {
        Err(e) => Err(e),
        Ok(_) => match initialize_verdict(
            Some(mcp::plain_response(initialize_request_tree(), Tree::Integer(1))),
        ) {
            Err(e) => Err(e),
            Ok(_) => tools_verdict(
                Some(mcp::plain_response(tools_request_tree(), Tree::Integer(2))),
            ),
        },
    }
}

/// Check the server against itself: the sample line and both replies pass.
pub fn selftest_peers_mcp() -> (r: Result<(), String>)
    ensures
        is_verdict(r, selftest_verdict()),
        r is Ok,
{
    let line = write_mcp_message(&sample());
    proof {
        lemma_sample_reads_back();
        lemma_sample_has_no_header();
        lemma_no_header_without_capital(line@);
        lemma_request_keys();
        reveal_strlit("\n");
        reveal_with_fuel(text::without_trailing, 2);
        let body = json::rendered_json(sample_tree());
        assert(line@.drop_last() =~= body);
        assert(body.last() == line@[line@.len() - 2]);
        assert(text::without_trailing(line@, '\n') == body);
        assert(json::reads_as(body, sample_tree()));
    }
    match check_line(line.as_str()) {
        Ok(_) => {},
        Err(e) => return Err(e),
    }
    let identity = PeerIdentity {
        session_id: "selftest".to_owned(),
        name: "selftest".to_owned(),
    };
    let no_peers_first = || -> (l: Result<Vec<PeerRecord>, String>)
        ensures
            l is Ok && l->Ok_0@.len() == 0,
        { Ok(Vec::new()) };
    let no_delivery_first = |_path: &str, _env: &InboxEnvelope| -> (d: Result<(), InboxSendError>)
        { Err(InboxSendError::Connect("selftest".to_owned())) };
    let init = handle_mcp_message(
        &initialize_request(),
        &identity,
        no_peers_first,
        no_delivery_first,
    );
    proof {
        server_passes_initialize();
    }
    match check_initialize(init.response) {
        Ok(_) => {},
        Err(e) => return Err(e),
    }
    let no_peers = || -> (l: Result<Vec<PeerRecord>, String>)
        ensures
            l is Ok && l->Ok_0@.len() == 0,
        { Ok(Vec::new()) };
    let no_delivery = |_path: &str, _env: &InboxEnvelope| -> (d: Result<(), InboxSendError>)
        { Err(InboxSendError::Connect("selftest".to_owned())) };
    let listed = handle_mcp_message(&tools_request(), &identity, no_peers, no_delivery);
    proof {
        server_passes_tools();
    }
    check_tools(listed.response)
}

// -- Laws -------------------------------------------------------------------

/// A line passes if and only if it is one text without line breaks that ends with
/// one, holds no length header and reads as JSON.
pub proof fn good_lines_are_json_lines(body: Seq<char>, t: Tree)
    requires
        body.len() > 0,
        body.last() != '\n',
    ensures
        text::has_text(body + seq!['\n'], "Content-Length"@) ==> line_verdict(
            body + seq!['\n'],
        ) is Err,
        body.contains('\n') ==> line_verdict(body + seq!['\n']) is Err,
        line_verdict(body) is Err,
        !body.contains('\n') && !text::has_text(body + seq!['\n'], "Content-Length"@)
            && json::reads_as(text::trimmed_end(body + seq!['\n']), t) ==> line_verdict(
            body + seq!['\n'],
        ) is Ok,
{
    let line = body + seq!['\n'];
    text::trailing_characters_come_off(body, seq!['\n'], '\n');
    assert(line.last() == '\n');
}

/// A reply to `initialize` passes if and only if it is there and answers the version
/// that was asked for.
pub proof fn probed_version_is_needed(reply: Tree, result: Tree, version: Seq<char>)
    requires
        json::member(reply, "result"@) == Some(result),
        json::member(result, "protocolVersion"@) == Some(Tree::Text(version)),
    ensures
        initialize_verdict(Some(reply)) is Ok <==> version == "2025-06-18"@,
        initialize_verdict(None) is Err,
{
}

/// A reply to `tools/list` passes if and only if it is there and its list has both
/// peer tools, wherever they stand.
pub proof fn listed_tools_are_needed(reply: Tree, result: Tree, tools: Seq<Tree>)
    requires
        json::member(reply, "result"@) == Some(result),
        json::member(result, "tools"@) == Some(Tree::Array(tools)),
    ensures
        tools_verdict(None) is Err,
        tools_verdict(Some(reply)) is Ok <==> (exists|i: int|
            0 <= i < tools.len() && json::member(#[trigger] tools[i], "name"@) == Some(
                Tree::Text("list_peers"@),
            )) && (exists|j: int|
            0 <= j < tools.len() && json::member(#[trigger] tools[j], "name"@) == Some(
                Tree::Text("send_message"@),
            )),
{
    replies::both_peer_tools_are_needed(reply, result, tools);
}

}
