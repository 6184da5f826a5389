//! Stdio `grok-peers` MCP attach for `/model-cursor` seats.

use vstd::prelude::*;

use serde_json::Value;

use crate::json;
use crate::json::{
    get_text, json_get, json_integer, json_text, parse_json, render_json, Fields, Tree,
};
use crate::mcp;
use crate::replies;
use crate::replies::{missing_tools, offers_peer_tools, tool_names};
use crate::selftest;
use crate::selftest::tools_request;
use crate::stdio;
use crate::stdio::write_mcp_message;
use crate::text;

verus! {

/// How long the server may take to answer, in seconds.
pub const PREFLIGHT_TIMEOUT_SECS: u64 = 8;

/// The name under which the server is attached.
pub const SERVER_NAME: &'static str = "grok-peers";

/// Seat identity passed into the `grok peers-mcp` stdio server.
#[derive(Debug)]
pub struct PeersMcpIdentity {
    pub grok_bin: String,
    pub session_id: String,
    pub peer_name: String,
    pub cwd: String,
    pub grok_home: String,
}

impl Clone for PeersMcpIdentity {
    fn clone(&self) -> (r: Self)
        ensures
            r == *self,
    {
        PeersMcpIdentity {
            grok_bin: self.grok_bin.clone(),
            session_id: self.session_id.clone(),
            peer_name: self.peer_name.clone(),
            cwd: self.cwd.clone(),
            grok_home: self.grok_home.clone(),
        }
    }
}

impl PeersMcpIdentity {
    /// The identity of a seat, with the resolved `grok` binary and grok home.
    pub fn for_seat(
        session_id: String,
        peer_name: String,
        cwd: String,
        grok_bin: String,
        grok_home: String,
    ) -> (r: Self)
        ensures
            r == (PeersMcpIdentity { grok_bin, session_id, peer_name, cwd, grok_home }),
    {
        PeersMcpIdentity { grok_bin, session_id, peer_name, cwd, grok_home }
    }
}

/// How to start an MCP server that speaks over its standard input and output.
#[derive(Debug)]
pub struct StdioMcpServerConfig {
    pub command: String,
    pub args: Vec<String>,
    /// The whole environment of the server.
    pub env: Vec<(String, String)>,
    pub cwd: String,
}

// -- Environment ------------------------------------------------------------

/// The value of the first variable of that name.
pub open spec fn lookup(env: Seq<(String, String)>, key: Seq<char>) -> Option<Seq<char>>
    decreases env.len(),
{
    if env.len() == 0 {
        None
    } else if env[0].0@ == key {
        Some(env[0].1@)
    } else {
        lookup(env.drop_first(), key)
    }
}

/// The variables that are handed on from the parent when it has them.
pub open spec fn forwarded() -> Seq<Seq<char>> {
    seq![
        "HOME"@,
        "PATH"@,
        "USERPROFILE"@,
        "SYSTEMROOT"@,
        "APPDATA"@,
        "TMPDIR"@,
        "TEMP"@,
        "TMP"@,
        "LANG"@,
        "LC_ALL"@,
    ]
}

/// The variables of the seat itself.
pub open spec fn seat_env(id: PeersMcpIdentity) -> Map<Seq<char>, Seq<char>> {
    Map::empty().insert("GROK_PEER_SESSION_ID"@, id.session_id@).insert(
        "GROK_PEER_NAME"@,
        id.peer_name@,
    ).insert("GROK_HOME"@, id.grok_home@)
}

/// The seat's variables with the first `n` of the forwarded ones.
pub open spec fn child_env_upto(
    id: PeersMcpIdentity,
    parent: Seq<(String, String)>,
    n: int,
) -> Map<Seq<char>, Seq<char>>
    decreases n,
{
    if n <= 0 {
        seat_env(id)
    } else {
        let key = forwarded()[n - 1];
        match lookup(parent, key) {
            Some(value) => child_env_upto(id, parent, n - 1).insert(key, value),
            None => child_env_upto(id, parent, n - 1),
        }
    }
}

/// The whole environment of the server: the seat's variables and the forwarded
/// ones that the parent has.
pub open spec fn child_env(id: PeersMcpIdentity, parent: Seq<(String, String)>) -> Map<
    Seq<char>,
    Seq<char>,
> {
    child_env_upto(id, parent, forwarded().len() as int)
}

/// The variables of a list; of two with the same name the later one counts.
pub open spec fn env_map(env: Seq<(String, String)>) -> Map<Seq<char>, Seq<char>>
    decreases env.len(),
{
    if env.len() == 0 {
        Map::empty()
    } else {
        env_map(env.drop_last()).insert(env.last().0@, env.last().1@)
    }
}

fn lookup_env(env: &Vec<(String, String)>, key: &str) -> (r: Option<String>)
    ensures
        match r {
            Some(v) => lookup(env@, key@) == Some(v@),
            None => lookup(env@, key@) is None,
        },
{
    let mut i: usize = 0;
    assert(env@.skip(0) =~= env@);
    while i < env.len()
        invariant
            i <= env@.len(),
            lookup(env@, key@) == lookup(env@.skip(i as int), key@),
        decreases env@.len() - i,
    {
        if text::same_text(env[i].0.as_str(), key) {
            return Some(env[i].1.clone());
        }
        assert(env@.skip(i as int).drop_first() =~= env@.skip(i + 1));
        i += 1;
    }
    None
}

fn put_env(env: &mut Vec<(String, String)>, key: &str, value: String)
    ensures
        env_map(final(env)@) == env_map(old(env)@).insert(key@, value@),
{
    let ghost before = env@;
    env.push((key.to_owned(), value));
    assert(env@.drop_last() =~= before);
}

fn forward_env(env: &mut Vec<(String, String)>, parent: &Vec<(String, String)>, key: &str)
    ensures
        env_map(final(env)@) == match lookup(parent@, key@) {
            Some(value) => env_map(old(env)@).insert(key@, value),
            None => env_map(old(env)@),
        },
{
    match lookup_env(parent, key) {
        Some(value) => put_env(env, key, value),
        None => {},
    }
}

/// Environment for the MCP child, assuming replacement (not merge) semantics.
pub fn stdio_child_env(id: &PeersMcpIdentity, parent: &Vec<(String, String)>) -> (r: Vec<
    (String, String),
>)
    ensures
        env_map(r@) == child_env(*id, parent@),
{
    let mut env: Vec<(String, String)> = Vec::new();
    put_env(&mut env, "GROK_PEER_SESSION_ID", id.session_id.clone());
    put_env(&mut env, "GROK_PEER_NAME", id.peer_name.clone());
    put_env(&mut env, "GROK_HOME", id.grok_home.clone());
    forward_env(&mut env, parent, "HOME");
    forward_env(&mut env, parent, "PATH");
    forward_env(&mut env, parent, "USERPROFILE");
    forward_env(&mut env, parent, "SYSTEMROOT");
    forward_env(&mut env, parent, "APPDATA");
    forward_env(&mut env, parent, "TMPDIR");
    forward_env(&mut env, parent, "TEMP");
    forward_env(&mut env, parent, "TMP");
    forward_env(&mut env, parent, "LANG");
    forward_env(&mut env, parent, "LC_ALL");
    proof {
        reveal_with_fuel(child_env_upto, 11);
    }
    env
}

/// `config` starts the server for the seat.
pub open spec fn starts_server(
    config: StdioMcpServerConfig,
    id: PeersMcpIdentity,
    parent: Seq<(String, String)>,
) -> bool {
    &&& config.command@ == id.grok_bin@
    &&& config.args@.len() == 1 && config.args@[0]@ == "peers-mcp"@
    &&& env_map(config.env@) == child_env(id, parent)
    &&& config.cwd@ == id.cwd@
}

/// The MCP servers to attach: `grok-peers` for a seat, none without one.
pub fn peers_mcp_servers(
    identity: &Option<PeersMcpIdentity>,
    parent: &Vec<(String, String)>,
) -> (r: Vec<(String, StdioMcpServerConfig)>)
    ensures
        match identity {
            Some(id) => r@.len() == 1 && r@[0].0@ == SERVER_NAME@ && starts_server(
                r@[0].1,
                *id,
                parent@,
            ),
            None => r@.len() == 0,
        },
{
    let mut servers: Vec<(String, StdioMcpServerConfig)> = Vec::new();
    match identity {
        Some(id) => {
            let mut args: Vec<String> = Vec::new();
            args.push("peers-mcp".to_owned());
            servers.push(
                (
                    SERVER_NAME.to_owned(),
                    StdioMcpServerConfig {
                        command: id.grok_bin.clone(),
                        args,
                        env: stdio_child_env(id, parent),
                        cwd: id.cwd.clone(),
                    },
                ),
            );
        },
        None => {},
    }
    servers
}

// -- Preflight --------------------------------------------------------------

/// The `initialize` request of the preflight.
pub open spec fn initialize_tree() -> Tree {
    Tree::Object(
        Map::empty().insert("jsonrpc"@, Tree::Text("2.0"@)).insert("id"@, Tree::Integer(1)).insert(
            "method"@,
            Tree::Text("initialize"@),
        ).insert(
            "params"@,
            Tree::Object(
                Map::empty().insert("protocolVersion"@, Tree::Text("2024-11-05"@)).insert(
                    "capabilities"@,
                    Tree::Object(Map::empty()),
                ).insert(
                    "clientInfo"@,
                    Tree::Object(
                        Map::empty().insert("name"@, Tree::Text("grok"@)).insert(
                            "version"@,
                            Tree::Text("0"@),
                        ),
                    ),
                ),
            ),
        ),
    )
}

/// The notification that follows a good reply to `initialize`.
pub open spec fn initialized_tree() -> Tree {
    Tree::Object(
        Map::empty().insert("jsonrpc"@, Tree::Text("2.0"@)).insert(
            "method"@,
            Tree::Text("notifications/initialized"@),
        ),
    )
}

fn initialize_request() -> (r: Value)
    ensures
        json::json_tree(r) == initialize_tree(),
{
    let mut client = Fields::new();
    client.put("name", json_text("grok".to_owned()));
    client.put("version", json_text("0".to_owned()));
    let mut params = Fields::new();
    params.put("protocolVersion", json_text("2024-11-05".to_owned()));
    params.put("capabilities", Fields::new().build());
    params.put("clientInfo", client.build());
    let mut msg = Fields::new();
    msg.put("jsonrpc", json_text("2.0".to_owned()));
    msg.put("id", json_integer(1));
    msg.put("method", json_text("initialize".to_owned()));
    msg.put("params", params.build());
    msg.build()
}

fn initialized_notification() -> (r: Value)
    ensures
        json::json_tree(r) == initialized_tree(),
{
    let mut msg = Fields::new();
    msg.put("jsonrpc", json_text("2.0".to_owned()));
    msg.put("method", json_text("notifications/initialized".to_owned()));
    msg.build()
}

/// What is wrong with a line that should hold a reply, or the reply in it. The
/// empty line is the end of the output.
pub open spec fn reply_in(line: Seq<char>) -> Result<Tree, Seq<char>> {
    let trimmed = text::trimmed(line);
    if line.len() == 0 {
        Err("peers-mcp closed stdout before answering"@)
    } else if trimmed.len() == 0 {
        Err("peers-mcp wrote a blank line"@)
    } else if "Content-Length"@.is_prefix_of(trimmed) {
        Err("peers-mcp still uses Content-Length framing; Cursor requires NDJSON"@)
    } else {
        match json::parsed_json(trimmed) {
            Ok(t) => Ok(t),
            Err(e) => Err("peers-mcp wrote a non-JSON line ("@ + e + "): "@ + trimmed),
        }
    }
}

/// Read a reply from one line of output.
pub fn read_ndjson(line: &str) -> (r: Result<Value, String>)
    ensures
        json::is_outcome(r, reply_in(line@)),
{
    if line.is_empty() {
        return Err("peers-mcp closed stdout before answering".to_owned());
    }
    let trimmed = text::trim(line);
    if trimmed.as_str().is_empty() {
        return Err("peers-mcp wrote a blank line".to_owned());
    }
    if text::starts_with(trimmed.as_str(), "Content-Length") {
        return Err(
            "peers-mcp still uses Content-Length framing; Cursor requires NDJSON".to_owned(),
        );
    }
    match parse_json(trimmed.as_str()) {
        Ok(v) => Ok(v),
        Err(e) => {
            let mut why = "peers-mcp wrote a non-JSON line (".to_owned();
            why.append(e.as_str());
            why.append("): ");
            why.append(trimmed.as_str());
            Err(why)
        },
    }
}

/// The name by which a server identifies itself.
pub open spec fn server_name(reply: Tree) -> Option<Seq<char>> {
    json::as_text(
        json::member_of(
            json::member_of(json::member(reply, "result"@), "serverInfo"@),
            "name"@,
        ),
    )
}

/// The verdict on the reply to `initialize`.
pub open spec fn initialize_verdict(reply: Tree) -> Result<(), Seq<char>> {
    if json::member(reply, "error"@) is Some {
        Err("initialize error: "@ + json::rendered_json(reply))
    } else if server_name(reply) != Some(SERVER_NAME@) {
        Err("initialize did not identify grok-peers: "@ + json::rendered_json(reply))
    } else {
        Ok(())
    }
}

/// The verdict on the reply to `tools/list`.
pub open spec fn tools_verdict(reply: Tree) -> Result<(), Seq<char>> {
    match replies::listed_names(reply) {
        None => Err("tools/list missing tools: "@ + json::rendered_json(reply)),
        Some(names) => if replies::has_peer_tools(names) {
            Ok(())
        } else {
            Err(replies::missing_tools_message(names))
        },
    }
}

/// Check the reply to `initialize`.
pub fn check_initialize_reply(reply: &Value) -> (r: Result<(), String>)
    ensures
        selftest::is_verdict(r, initialize_verdict(json::json_tree(*reply))),
{
    if json_get(reply, "error").is_some() {
        return Err("initialize error: ".to_owned().concat(render_json(reply).as_str()));
    }
    let name = match json_get(reply, "result") {
        Some(result) => match json_get(result, "serverInfo") {
            Some(info) => get_text(info, "name"),
            None => None,
        },
        None => None,
    };
    let known: bool = match name {
        Some(n) => text::same_text(n.as_str(), SERVER_NAME),
        None => false,
    };
    if known {
        Ok(())
    } else {
        Err(
            "initialize did not identify grok-peers: ".to_owned().concat(
                render_json(reply).as_str(),
            ),
        )
    }
}

/// Check the reply to `tools/list`.
pub fn check_tools_reply(reply: &Value) -> (r: Result<(), String>)
    ensures
        selftest::is_verdict(r, tools_verdict(json::json_tree(*reply))),
{
    let names = match tool_names(reply) {
        Some(names) => names,
        None => {
            return Err(
                "tools/list missing tools: ".to_owned().concat(render_json(reply).as_str()),
            );
        },
    };
    if offers_peer_tools(&names) {
        Ok(())
    } else {
        Err(missing_tools(&names))
    }
}

/// How far the handshake is.
#[derive(Debug, Clone, Copy, PartialEq, Eq, Structural)]
pub enum HandshakeStage {
    /// `initialize` was sent.
    Initializing,
    /// `tools/list` was sent.
    Listing,
    /// It is over.
    Over,
}

/// What to do next.
#[derive(Debug)]
pub enum HandshakeStep {
    /// Write these lines, then read a line.
    Write(Vec<String>),
    /// The server is usable.
    Ready,
    /// The server is not usable, for the given reason.
    Failed(String),
}

/// The client side of `initialize` and `tools/list`.
#[derive(Debug)]
pub struct Handshake {
    stage: HandshakeStage,
}

/// What a line means in a stage: the next stage, and an error if it is one.
pub open spec fn line_verdict(stage: HandshakeStage, line: Seq<char>) -> Result<(), Seq<char>> {
    match reply_in(line) {
        Err(e) => Err(e),
        Ok(reply) => match stage {
            HandshakeStage::Initializing => initialize_verdict(reply),
            _ => tools_verdict(reply),
        },
    }
}

impl Handshake {
    /// How far the handshake is.
    pub closed spec fn stage(&self) -> HandshakeStage {
        self.stage
    }

    /// Begin: the first line to write.
    pub fn start() -> (r: (Self, String))
        ensures
            r.0.stage() == HandshakeStage::Initializing,
            r.1@ == stdio::written_line(initialize_tree()),
            stdio::is_single_line(r.1@),
    {
        let line = write_mcp_message(&initialize_request());
        (Handshake { stage: HandshakeStage::Initializing }, line)
    }

    /// Take in one line of output, the empty one at its end.
    pub fn on_line(&mut self, line: &str) -> (r: HandshakeStep)
        requires
            old(self).stage() != HandshakeStage::Over,
        ensures
            match line_verdict(old(self).stage(), line@) {
                Err(e) => r is Failed && r->Failed_0@ == e && final(self).stage()
                    == HandshakeStage::Over,
                Ok(_) => match old(self).stage() {
                    HandshakeStage::Initializing => final(self).stage() == HandshakeStage::Listing
                        && r is Write && r->Write_0@.len() == 2 && r->Write_0@[0]@
                        == stdio::written_line(initialized_tree()) && r->Write_0@[1]@
                        == stdio::written_line(selftest::tools_request_tree()),
                    _ => final(self).stage() == HandshakeStage::Over && r is Ready,
                },
            },
    {
        let stage = self.stage;
        self.stage = HandshakeStage::Over;
        let reply = match read_ndjson(line) {
            Ok(v) => v,
            Err(e) => return HandshakeStep::Failed(e),
        };
        match stage {
            HandshakeStage::Initializing => match check_initialize_reply(&reply) {
                Ok(_) => {
                    self.stage = HandshakeStage::Listing;
                    let mut lines: Vec<String> = Vec::new();
                    lines.push(write_mcp_message(&initialized_notification()));
                    lines.push(write_mcp_message(&tools_request()));
                    HandshakeStep::Write(lines)
                },
                Err(e) => HandshakeStep::Failed(e),
            },
            _ => match check_tools_reply(&reply) {
                Ok(_) => HandshakeStep::Ready,
                Err(e) => HandshakeStep::Failed(e),
            },
        }
    }
}

/// How the preflight ended.
#[derive(Debug)]
pub enum PreflightOutcome {
    /// The server could not be started, for the given reason.
    NotSpawned(String),
    /// The handshake ended.
    Answered(Result<(), String>),
    /// The handshake did not end in time.
    TimedOut,
}

/// What is said of a preflight, if it failed.
pub open spec fn preflight_failure(config: StdioMcpServerConfig, outcome: PreflightOutcome) -> Option<
    Seq<char>,
> {
    match outcome {
        PreflightOutcome::NotSpawned(e) => Some(
            "failed to spawn peers-mcp at "@ + config.command@ + " (cwd "@ + config.cwd@ + "): "@
                + e@,
        ),
        PreflightOutcome::Answered(Ok(_)) => None,
        PreflightOutcome::Answered(Err(e)) => Some(
            "peers-mcp at "@ + config.command@ + " failed handshake: "@ + e@,
        ),
        PreflightOutcome::TimedOut => Some(
            "peers-mcp at "@ + config.command@
                + " did not answer initialize/tools/list within "@ + text::decimal(
                PREFLIGHT_TIMEOUT_SECS as nat,
            ) + "s"@,
        ),
    }
}

/// The result of a preflight, with the binary that was tried in the message.
pub fn preflight_result(config: &StdioMcpServerConfig, outcome: PreflightOutcome) -> (r: Result<
    (),
    String,
>)
    ensures
        match preflight_failure(*config, outcome) {
            Some(why) => r is Err && r->Err_0@ == why,
            None => r is Ok,
        },
{
    match outcome {
        PreflightOutcome::NotSpawned(e) => {
            let mut m = "failed to spawn peers-mcp at ".to_owned();
            m.append(config.command.as_str());
            m.append(" (cwd ");
            m.append(config.cwd.as_str());
            m.append("): ");
            m.append(e.as_str());
            Err(m)
        },
        PreflightOutcome::Answered(Ok(_)) => Ok(()),
        PreflightOutcome::Answered(Err(e)) => {
            let mut m = "peers-mcp at ".to_owned();
            m.append(config.command.as_str());
            m.append(" failed handshake: ");
            m.append(e.as_str());
            Err(m)
        },
        PreflightOutcome::TimedOut => {
            let mut m = "peers-mcp at ".to_owned();
            m.append(config.command.as_str());
            m.append(" did not answer initialize/tools/list within ");
            m.append(text::to_decimal(PREFLIGHT_TIMEOUT_SECS).as_str());
            m.append("s");
            Err(m)
        },
    }
}

// -- Laws -------------------------------------------------------------------

/// The preflight accepts the server of this library: its replies to both
/// requests pass.
pub proof fn own_server_passes_preflight()
    ensures
        initialize_verdict(mcp::plain_response(initialize_tree(), Tree::Integer(1))) is Ok,
        tools_verdict(
            mcp::plain_response(selftest::tools_request_tree(), Tree::Integer(2)),
        ) is Ok,
        json::member(initialized_tree(), "id"@) is None,
{
    selftest::lemma_request_keys();
    selftest::server_passes_tools();
    reveal_strlit("error");
    reveal_strlit("result");
    reveal_strlit("jsonrpc");
    reveal_strlit("id");
    reveal_strlit("name");
    reveal_strlit("version");
    assert("error"@[0] == 'e');
    assert("result"@[0] == 'r');
    assert("jsonrpc"@[0] == 'j');
    assert("id"@[0] == 'i');
    assert("name"@[0] != "version"@[0]);
}

/// The server is given the seat's variables, whatever the parent has, and nothing
/// from the parent but the forwarded ones.
pub proof fn child_env_is_closed(id: PeersMcpIdentity, parent: Seq<(String, String)>)
    ensures
        child_env(id, parent).contains_pair("GROK_PEER_SESSION_ID"@, id.session_id@),
        child_env(id, parent).contains_pair("GROK_PEER_NAME"@, id.peer_name@),
        child_env(id, parent).contains_pair("GROK_HOME"@, id.grok_home@),
        forall|key: Seq<char>|
            forwarded().contains(key) ==> (#[trigger] child_env(id, parent).contains_key(key)
                <==> lookup(parent, key) is Some),
        forall|key: Seq<char>|
            forwarded().contains(key) && #[trigger] child_env(id, parent).contains_key(key)
                ==> child_env(id, parent)[key] == lookup(parent, key)->0,
        forall|key: Seq<char>| #[trigger]
            child_env(id, parent).contains_key(key) ==> forwarded().contains(key) || seat_env(
                id,
            ).contains_key(key),
{
    lemma_env_names();
    lemma_child_env_upto(id, parent, forwarded().len() as int);
    let n = forwarded().len() as int;
    assert forall|key: Seq<char>| forwarded().contains(key) implies (
    #[trigger] child_env(id, parent).contains_key(key) <==> lookup(parent, key) is Some) by {
        let i = choose|i: int| 0 <= i < n && forwarded()[i] == key;
        assert(forwarded()[i] == key);
    }
    assert forall|key: Seq<char>|
        forwarded().contains(key) && #[trigger] child_env(id, parent).contains_key(
            key,
        ) implies child_env(id, parent)[key] == lookup(parent, key)->0 by {
        let i = choose|i: int| 0 <= i < n && forwarded()[i] == key;
        assert(forwarded()[i] == key);
    }
}

/// No two of the variables have the same name.
proof fn lemma_env_names()
    ensures
        "GROK_PEER_SESSION_ID"@ != "GROK_PEER_NAME"@,
        "GROK_PEER_SESSION_ID"@ != "GROK_HOME"@,
        "GROK_PEER_NAME"@ != "GROK_HOME"@,
        forall|i: int|
            0 <= i < forwarded().len() ==> (#[trigger] forwarded()[i]) != "GROK_PEER_SESSION_ID"@
                && forwarded()[i] != "GROK_PEER_NAME"@ && forwarded()[i] != "GROK_HOME"@,
{
    reveal_strlit("GROK_PEER_SESSION_ID");
    reveal_strlit("GROK_PEER_NAME");
    reveal_strlit("GROK_HOME");
    reveal_strlit("HOME");
    reveal_strlit("PATH");
    reveal_strlit("USERPROFILE");
    reveal_strlit("SYSTEMROOT");
    reveal_strlit("APPDATA");
    reveal_strlit("TMPDIR");
    reveal_strlit("TEMP");
    reveal_strlit("TMP");
    reveal_strlit("LANG");
    reveal_strlit("LC_ALL");
    assert("GROK_PEER_SESSION_ID"@[0] == 'G');
    assert("GROK_PEER_NAME"@[0] == 'G');
    assert("GROK_HOME"@[0] == 'G');
    assert("GROK_PEER_SESSION_ID"@.len() == 20);
    assert("GROK_PEER_NAME"@.len() == 14);
    assert("GROK_HOME"@.len() == 9);
    assert forall|i: int| 0 <= i < forwarded().len() implies (#[trigger] forwarded()[i])[0]
        != 'G' by {}
}

proof fn lemma_child_env_upto(id: PeersMcpIdentity, parent: Seq<(String, String)>, n: int)
    requires
        0 <= n <= forwarded().len(),
    ensures
        child_env_upto(id, parent, n).contains_pair("GROK_PEER_SESSION_ID"@, id.session_id@),
        child_env_upto(id, parent, n).contains_pair("GROK_PEER_NAME"@, id.peer_name@),
        child_env_upto(id, parent, n).contains_pair("GROK_HOME"@, id.grok_home@),
        forall|i: int|
            0 <= i < n ==> (child_env_upto(id, parent, n).contains_key(
                #[trigger] forwarded()[i],
            ) <==> lookup(parent, forwarded()[i]) is Some),
        forall|i: int|
            0 <= i < n && lookup(parent, #[trigger] forwarded()[i]) is Some ==> child_env_upto(
                id,
                parent,
                n,
            )[forwarded()[i]] == lookup(parent, forwarded()[i])->0,
        forall|key: Seq<char>| #[trigger]
            child_env_upto(id, parent, n).contains_key(key) ==> seat_env(id).contains_key(key)
                || exists|i: int| 0 <= i < n && forwarded()[i] == key,
    decreases n,
{
    lemma_env_names();
    if n > 0 {
        lemma_child_env_upto(id, parent, n - 1);
        let key = forwarded()[n - 1];
        let before = child_env_upto(id, parent, n - 1);
        let after = child_env_upto(id, parent, n);
        assert forall|i: int| 0 <= i < n implies (after.contains_key(#[trigger] forwarded()[i])
            <==> lookup(parent, forwarded()[i]) is Some) by {
            if i == n - 1 && lookup(parent, key) is None {
                if before.contains_key(key) {
                    if !seat_env(id).contains_key(key) {
                        let j = choose|j: int| 0 <= j < n - 1 && forwarded()[j] == key;
                        assert(before.contains_key(forwarded()[j]));
                    }
                }
            }
        }
        assert forall|k: Seq<char>| #[trigger] after.contains_key(k) implies seat_env(
            id,
        ).contains_key(k) || exists|i: int| 0 <= i < n && forwarded()[i] == k by {
            if before.contains_key(k) {
                if !seat_env(id).contains_key(k) {
                    let j = choose|j: int| 0 <= j < n - 1 && forwarded()[j] == k;
                    assert(forwarded()[j] == k);
                }
            } else {
                assert(forwarded()[n - 1] == k);
            }
        }
    }
}

/// A variable has the value that it is given first; one that is not given has none.
pub proof fn first_value_counts(env: Seq<(String, String)>, key: Seq<char>, i: int)
    requires
        0 <= i <= env.len(),
        forall|j: int| 0 <= j < i ==> (#[trigger] env[j]).0@ != key,
        i < env.len() ==> env[i].0@ == key,
    ensures
        i < env.len() ==> lookup(env, key) == Some(env[i].1@),
        i == env.len() ==> lookup(env, key) is None,
    decreases env.len(),
{
    if i > 0 {
        let rest = env.drop_first();
        assert(env[0].0@ != key);
        assert forall|j: int| 0 <= j < i - 1 implies (#[trigger] rest[j]).0@ != key by {
            assert(rest[j] == env[j + 1]);
        }
        first_value_counts(rest, key, i - 1);
    }
}

/// In the list that a server is started with, the value that a variable is given
/// last counts, and no other variable is there.
pub proof fn last_value_counts(env: Seq<(String, String)>, key: Seq<char>, i: int)
    requires
        -1 <= i < env.len(),
        forall|j: int| i < j < env.len() ==> (#[trigger] env[j]).0@ != key,
        i >= 0 ==> env[i].0@ == key,
    ensures
        i >= 0 ==> env_map(env).contains_pair(key, env[i].1@),
        i < 0 ==> !env_map(env).contains_key(key),
    decreases env.len(),
{
    if env.len() > 0 && i < env.len() - 1 {
        let rest = env.drop_last();
        assert(env[env.len() - 1].0@ != key);
        assert forall|j: int| i < j < rest.len() implies (#[trigger] rest[j]).0@ != key by {
            assert(rest[j] == env[j]);
        }
        last_value_counts(rest, key, i);
    }
}

/// The variables that a program needs to find its home, its binaries, its scratch
/// space and its language are handed on as the parent has them; no other variable
/// of the parent is.
pub proof fn needed_variables_are_handed_on(
    id: PeersMcpIdentity,
    parent: Seq<(String, String)>,
    key: Seq<char>,
)
    requires
        key != "GROK_PEER_SESSION_ID"@,
        key != "GROK_PEER_NAME"@,
        key != "GROK_HOME"@,
    ensures
        key == "HOME"@ || key == "PATH"@ || key == "USERPROFILE"@ || key == "SYSTEMROOT"@ || key
            == "APPDATA"@ || key == "TMPDIR"@ || key == "TEMP"@ || key == "TMP"@ || key == "LANG"@
            || key == "LC_ALL"@ ==> (lookup(parent, key) matches Some(value) ==> child_env(
            id,
            parent,
        ).contains_pair(key, value)),
        child_env(id, parent).contains_key(key) ==> lookup(parent, key) is Some && (key == "HOME"@
            || key == "PATH"@ || key == "USERPROFILE"@ || key == "SYSTEMROOT"@ || key
            == "APPDATA"@ || key == "TMPDIR"@ || key == "TEMP"@ || key == "TMP"@ || key == "LANG"@
            || key == "LC_ALL"@),
{
    child_env_is_closed(id, parent);
    let names = forwarded();
    assert(names[0] == "HOME"@ && names[1] == "PATH"@ && names[2] == "USERPROFILE"@ && names[3]
        == "SYSTEMROOT"@ && names[4] == "APPDATA"@);
    assert(names[5] == "TMPDIR"@ && names[6] == "TEMP"@ && names[7] == "TMP"@ && names[8]
        == "LANG"@ && names[9] == "LC_ALL"@);
    if child_env(id, parent).contains_key(key) {
        assert(names.contains(key));
    }
}

/// The server is started with the binary of the seat, in the directory of the seat,
/// as `peers-mcp`, under the seat's own session id, name and home.
pub proof fn server_is_started_for_its_seat(
    config: StdioMcpServerConfig,
    id: PeersMcpIdentity,
    parent: Seq<(String, String)>,
)
    requires
        starts_server(config, id, parent),
    ensures
        config.command@ == id.grok_bin@,
        config.args@.len() == 1,
        config.args@[0]@ == "peers-mcp"@,
        config.cwd@ == id.cwd@,
        env_map(config.env@).contains_pair("GROK_PEER_SESSION_ID"@, id.session_id@),
        env_map(config.env@).contains_pair("GROK_PEER_NAME"@, id.peer_name@),
        env_map(config.env@).contains_pair("GROK_HOME"@, id.grok_home@),
{
    child_env_is_closed(id, parent);
}

/// A line is read as the JSON in it, whatever white space stands around it; a line
/// that holds none, or a header, or that is not there, is an error.
pub proof fn replies_are_json_lines(line: Seq<char>, t: Tree)
    ensures
        text::trimmed(line).len() > 0 && !"Content-Length"@.is_prefix_of(text::trimmed(line))
            && json::reads_as(text::trimmed(line), t) ==> reply_in(line) == Ok::<Tree, Seq<char>>(t),
        reply_in(line) == Ok::<Tree, Seq<char>>(t) ==> json::reads_as(text::trimmed(line), t),
        text::trimmed(line).len() == 0 ==> reply_in(line) is Err,
        text::trimmed(line).len() > 0 && !"Content-Length"@.is_prefix_of(text::trimmed(line)) ==> (
        json::parsed_json(text::trimmed(line)) matches Err(e) ==> reply_in(line) == Err::<
            Tree,
            Seq<char>,
        >("peers-mcp wrote a non-JSON line ("@ + e + "): "@ + text::trimmed(line))),
        "Content-Length"@.is_prefix_of(text::trimmed(line)) ==> reply_in(line) is Err,
{
    if line.len() == 0 {
        text::lemma_trimmed_noop(line);
    }
}

/// A reply to `initialize` is good if and only if it is no error and the server in
/// it is called `grok-peers`.
pub proof fn server_is_known_by_its_name(reply: Tree, result: Tree, info: Tree, name: Seq<char>)
    requires
        json::member(reply, "result"@) == Some(result),
        json::member(result, "serverInfo"@) == Some(info),
        json::member(info, "name"@) == Some(Tree::Text(name)),
    ensures
        json::member(reply, "error"@) is Some ==> initialize_verdict(reply) is Err,
        json::member(reply, "error"@) is None ==> (initialize_verdict(reply) is Ok <==> name
            == "grok-peers"@),
{
}

/// A reply to `tools/list` is good if and only if its list has both peer tools,
/// wherever they stand.
pub proof fn server_needs_both_tools(reply: Tree, result: Tree, tools: Seq<Tree>)
    requires
        json::member(reply, "result"@) == Some(result),
        json::member(result, "tools"@) == Some(Tree::Array(tools)),
    ensures
        tools_verdict(reply) is Ok <==> (exists|i: int|
            0 <= i < tools.len() && json::member(#[trigger] tools[i], "name"@) == Some(
                Tree::Text("list_peers"@),
            )) && (exists|j: int|
            0 <= j < tools.len() && json::member(#[trigger] tools[j], "name"@) == Some(
                Tree::Text("send_message"@),
            )),
{
    replies::both_peer_tools_are_needed(reply, result, tools);
}

/// The first line that is read is judged as the reply to `initialize`, the second as
/// that to `tools/list`; a line that is no reply fails in both stages.
pub proof fn each_stage_has_its_reply(line: Seq<char>, reply: Tree)
    ensures
        reply_in(line) == Ok::<Tree, Seq<char>>(reply) ==> line_verdict(
            HandshakeStage::Initializing,
            line,
        ) == initialize_verdict(reply) && line_verdict(HandshakeStage::Listing, line)
            == tools_verdict(reply),
        reply_in(line) is Err ==> line_verdict(HandshakeStage::Initializing, line) is Err
            && line_verdict(HandshakeStage::Listing, line) is Err,
{
}

/// A preflight fails unless the handshake ended well, and what is said of a failure
/// names the binary and ends with the reason, where one was given.
pub proof fn failed_preflight_names_the_binary(
    config: StdioMcpServerConfig,
    outcome: PreflightOutcome,
)
    ensures
        preflight_failure(config, outcome) is None <==> (outcome matches PreflightOutcome::Answered(
            Ok(_),
        )),
        preflight_failure(config, outcome) matches Some(why) ==> text::has_text(
            why,
            config.command@,
        ),
        outcome matches PreflightOutcome::NotSpawned(e) ==> e@.is_suffix_of(
            preflight_failure(config, outcome)->0,
        ) && text::has_text(preflight_failure(config, outcome)->0, config.cwd@),
        outcome matches PreflightOutcome::Answered(Err(e)) ==> e@.is_suffix_of(
            preflight_failure(config, outcome)->0,
        ),
        outcome is TimedOut ==> text::has_text(preflight_failure(config, outcome)->0, "8"@),
{
    let command = config.command@;
    match outcome {
        PreflightOutcome::NotSpawned(e) => {
            let why = preflight_failure(config, outcome)->0;
            let start = "failed to spawn peers-mcp at "@;
            let after = " (cwd "@ + config.cwd@ + "): "@ + e@;
            text::lemma_text_between(start, command, after);
            assert(start + command + after =~= why);
            let before = start + command + " (cwd "@;
            text::lemma_text_between(before, config.cwd@, "): "@ + e@);
            assert(before + config.cwd@ + ("): "@ + e@) =~= why);
            assert(why.subrange(why.len() - e@.len(), why.len() as int) =~= e@);
        },
        PreflightOutcome::Answered(Ok(_)) => {},
        PreflightOutcome::Answered(Err(e)) => {
            let why = preflight_failure(config, outcome)->0;
            let start = "peers-mcp at "@;
            let after = " failed handshake: "@ + e@;
            text::lemma_text_between(start, command, after);
            assert(start + command + after =~= why);
            assert(why.subrange(why.len() - e@.len(), why.len() as int) =~= e@);
        },
        PreflightOutcome::TimedOut => {
            let why = preflight_failure(config, outcome)->0;
            let start = "peers-mcp at "@;
            let middle = " did not answer initialize/tools/list within "@;
            let d = text::decimal(PREFLIGHT_TIMEOUT_SECS as nat);
            let after = middle + d + "s"@;
            text::lemma_text_between(start, command, after);
            assert(start + command + after =~= why);
            reveal_strlit("8");
            text::digits_are_written_in_order(0, 8);
            assert(d =~= "8"@);
            text::lemma_text_between(start + command + middle, d, "s"@);
            assert(start + command + middle + d + "s"@ =~= why);
        },
    }
}

/// The preflight asks as a client of its own protocol version: request 1 is
/// `initialize`, request 2 is `tools/list`, and the notification between them has
/// no id.
pub proof fn preflight_asks_in_order()
    ensures
        json::member(initialize_tree(), "id"@) == Some(Tree::Integer(1)),
        json::text_member(initialize_tree(), "method"@) == Some("initialize"@),
        json::text_member(initialize_tree(), "jsonrpc"@) == Some("2.0"@),
        json::as_text(json::member_of(json::member(initialize_tree(), "params"@), "protocolVersion"@))
            == Some("2024-11-05"@),
        json::member(selftest::tools_request_tree(), "id"@) == Some(Tree::Integer(2)),
        json::text_member(selftest::tools_request_tree(), "method"@) == Some("tools/list"@),
        json::text_member(initialized_tree(), "method"@) == Some("notifications/initialized"@),
        json::member(initialized_tree(), "id"@) is None,
{
    own_server_passes_preflight();
    selftest::lemma_request_keys();
    reveal_strlit("jsonrpc");
    reveal_strlit("method");
    reveal_strlit("params");
    reveal_strlit("id");
    reveal_strlit("protocolVersion");
    reveal_strlit("clientInfo");
    assert("jsonrpc"@[0] == 'j');
    assert("method"@[0] == 'm');
    assert("params"@[0] == 'p');
    assert("id"@[0] == 'i');
    assert("protocolVersion"@[0] == 'p');
    assert("clientInfo"@[0] == 'c');
}

}
