//! Reading the replies of a peers MCP server.

use vstd::prelude::*;

use serde_json::Value;

use crate::json;
use crate::json::{get_text, json_as_array, json_get, Tree};
use crate::mcp;
use crate::text;

verus! {

/// The texts of some strings in a row.
pub open spec fn texts(names: Seq<String>) -> Seq<Seq<char>> {
    Seq::new(names.len(), |i: int| names[i]@)
}

/// The names of the tools that have one.
pub open spec fn names_in(tools: Seq<Tree>) -> Seq<Seq<char>>
    decreases tools.len(),
{
    if tools.len() == 0 {
        Seq::empty()
    } else {
        match json::text_member(tools.last(), "name"@) {
            Some(name) => names_in(tools.drop_last()).push(name),
            None => names_in(tools.drop_last()),
        }
    }
}

/// The names of the tools in a reply to `tools/list`, if it holds a list.
pub open spec fn listed_names(reply: Tree) -> Option<Seq<Seq<char>>> {
    match json::member_of(json::member(reply, "result"@), "tools"@) {
        Some(Tree::Array(tools)) => Some(names_in(tools)),
        _ => None,
    }
}

/// Both peer tools are among the names.
pub open spec fn has_peer_tools(names: Seq<Seq<char>>) -> bool {
    names.contains(mcp::LIST_PEERS@) && names.contains(mcp::SEND_MESSAGE@)
}

/// The names in quotes, with a comma between each two.
pub open spec fn quoted_names(names: Seq<Seq<char>>) -> Seq<char>
    decreases names.len(),
{
    if names.len() == 0 {
        Seq::empty()
    } else if names.len() == 1 {
        text::debug_form(names[0])
    } else {
        quoted_names(names.drop_last()) + ", "@ + text::debug_form(names.last())
    }
}

/// The message for a list without both peer tools.
pub open spec fn missing_tools_message(names: Seq<Seq<char>>) -> Seq<char> {
    "tools/list missing peer tools: ["@ + quoted_names(names) + "]"@
}

/// The names of the tools in a reply to `tools/list`, if it holds a list.
pub fn tool_names(reply: &Value) -> (r: Option<Vec<String>>)
    ensures
        match r {
            Some(names) => listed_names(json::json_tree(*reply)) == Some(texts(names@)),
            None => listed_names(json::json_tree(*reply)) is None,
        },
{
    let result = match json_get(reply, "result") {
        Some(v) => v,
        None => return None,
    };
    let tools = match json_get(result, "tools") {
        Some(v) => v,
        None => return None,
    };
    let items = match json_as_array(tools) {
        Some(items) => items,
        None => return None,
    };
    let ghost all = json::trees(items@);
    let mut names: Vec<String> = Vec::new();
    let mut i: usize = 0;
    assert(all.take(0) =~= Seq::<Tree>::empty());
    assert(texts(names@) =~= Seq::<Seq<char>>::empty());
    while i < items.len()
        invariant
            i <= items@.len(),
            all == json::trees(items@),
            texts(names@) == names_in(all.take(i as int)),
        decreases items@.len() - i,
    {
        proof {
            assert(all.take(i + 1).drop_last() =~= all.take(i as int));
            assert(all.take(i + 1).last() == json::json_tree(items@[i as int]));
        }
        let ghost before = texts(names@);
        match get_text(&items[i], "name") {
            Some(name) => {
                names.push(name);
                assert(texts(names@) =~= before.push(name@));
            },
            None => {},
        }
        i += 1;
    }
    assert(all.take(items@.len() as int) =~= all);
    Some(names)
}

fn contains_name(names: &Vec<String>, name: &str) -> (r: bool)
    ensures
        r == texts(names@).contains(name@),
{
    let mut i: usize = 0;
    while i < names.len()
        invariant
            i <= names@.len(),
            forall|j: int| 0 <= j < i ==> texts(names@)[j] != name@,
        decreases names@.len() - i,
    {
        if text::same_text(names[i].as_str(), name) {
            assert(texts(names@)[i as int] == name@);
            return true;
        }
        i += 1;
    }
    false
}

/// True when both peer tools are among the names.
pub fn offers_peer_tools(names: &Vec<String>) -> (r: bool)
    ensures
        r == has_peer_tools(texts(names@)),
{
    contains_name(names, mcp::LIST_PEERS) && contains_name(names, mcp::SEND_MESSAGE)
}

/// The message for a list without both peer tools.
pub fn missing_tools(names: &Vec<String>) -> (r: String)
    ensures
        r@ == missing_tools_message(texts(names@)),
{
    let ghost all = texts(names@);
    let mut list = String::new();
    let mut i: usize = 0;
    while i < names.len()
        invariant
            i <= names@.len(),
            all == texts(names@),
            list@ == quoted_names(all.take(i as int)),
        decreases names@.len() - i,
    {
        proof {
            assert(all.take(i + 1).drop_last() =~= all.take(i as int));
            assert(all.take(i + 1).last() == names@[i as int]@);
        }
        if i > 0 {
            list.append(", ");
        }
        let name = text::debug_text(names[i].as_str());
        list.append(name.as_str());
        proof {
            if i == 0 {
                assert(all.take(1)[0] == names@[0]@);
                assert(list@ =~= text::debug_form(names@[0]@));
            }
        }
        i += 1;
    }
    assert(all.take(names@.len() as int) =~= all);
    let mut out = "tools/list missing peer tools: [".to_owned();
    out.append(list.as_str());
    out.append("]");
    out
}

/// The server's own reply to `tools/list` names both peer tools.
pub proof fn server_lists_peer_tools(id: Tree)
    ensures
        listed_names(
            mcp::result_tree(
                id,
                Tree::Object(Map::empty().insert("tools"@, Tree::Array(mcp::tools_tree()))),
            ),
        ) == Some(seq![mcp::LIST_PEERS@, mcp::SEND_MESSAGE@]),
        has_peer_tools(seq![mcp::LIST_PEERS@, mcp::SEND_MESSAGE@]),
{
    reveal_strlit("name");
    reveal_strlit("description");
    reveal_strlit("inputSchema");
    assert("name"@[0] != "description"@[0]);
    assert("name"@[0] != "inputSchema"@[0]);
    let tools = mcp::tools_tree();
    let first = tools.drop_last();
    assert(first =~= seq![mcp::list_peers_tree()]);
    assert(first.drop_last() =~= Seq::<Tree>::empty());
    reveal_with_fuel(names_in, 3);
    assert(names_in(first) =~= seq![mcp::LIST_PEERS@]);
    assert(names_in(tools) =~= seq![mcp::LIST_PEERS@, mcp::SEND_MESSAGE@]);
    let names = seq![mcp::LIST_PEERS@, mcp::SEND_MESSAGE@];
    assert(names[0] == mcp::LIST_PEERS@ && names[1] == mcp::SEND_MESSAGE@);
}

// -- Laws -------------------------------------------------------------------

/// The names of some tools followed by others are those of the former followed by
/// those of the latter, so none is left out and none is out of order.
pub proof fn names_come_in_order(a: Seq<Tree>, b: Seq<Tree>)
    ensures
        names_in(a + b) == names_in(a) + names_in(b),
    decreases b.len(),
{
    if b.len() == 0 {
        assert(a + b =~= a);
        assert(names_in(a) + names_in(b) =~= names_in(a));
    } else {
        assert((a + b).drop_last() =~= a + b.drop_last());
        assert((a + b).last() == b.last());
        names_come_in_order(a, b.drop_last());
        assert(names_in(a + b) =~= names_in(a) + names_in(b));
    }
}

/// A tool is named by the text under `name`; one without such a text has no name.
pub proof fn tools_are_named_by_their_name(tool: Tree, name: Seq<char>)
    ensures
        json::member(tool, "name"@) == Some(Tree::Text(name)) ==> names_in(seq![tool]) == seq![name],
        !(json::member(tool, "name"@) matches Some(Tree::Text(_))) ==> names_in(seq![tool]).len()
            == 0,
{
    reveal_with_fuel(names_in, 2);
    assert(seq![tool].drop_last() =~= Seq::<Tree>::empty());
    if json::member(tool, "name"@) == Some(Tree::Text(name)) {
        assert(names_in(seq![tool]) =~= seq![name]);
    }
}

/// A name is among those of a list of tools if and only if one of them has it,
/// wherever it stands.
pub proof fn every_named_tool_is_listed(tools: Seq<Tree>, name: Seq<char>)
    ensures
        names_in(tools).contains(name) <==> exists|i: int|
            0 <= i < tools.len() && json::member(#[trigger] tools[i], "name"@) == Some(
                Tree::Text(name),
            ),
    decreases tools.len(),
{
    if tools.len() > 0 {
        let rest = tools.drop_last();
        every_named_tool_is_listed(rest, name);
        let all = names_in(tools);
        let before = names_in(rest);
        if all.contains(name) {
            if before.contains(name) {
                let i = choose|i: int|
                    0 <= i < rest.len() && json::member(#[trigger] rest[i], "name"@) == Some(
                        Tree::Text(name),
                    );
                assert(tools[i] == rest[i]);
            } else {
                let i = choose|i: int| 0 <= i < all.len() && all[i] == name;
                if i < before.len() {
                    assert(before[i] == name);
                }
                assert(json::member(tools[tools.len() - 1], "name"@) == Some(Tree::Text(name)));
            }
        }
        if exists|i: int|
            0 <= i < tools.len() && json::member(#[trigger] tools[i], "name"@) == Some(
                Tree::Text(name),
            ) {
            let i = choose|i: int|
                0 <= i < tools.len() && json::member(#[trigger] tools[i], "name"@) == Some(
                    Tree::Text(name),
                );
            if i < rest.len() {
                assert(rest[i] == tools[i]);
                let k = choose|k: int| 0 <= k < before.len() && before[k] == name;
                assert(all[k] == name);
            } else {
                assert(all[before.len() as int] == name);
            }
        }
    }
}

/// A reply offers the peer tools if and only if its list has a tool named
/// `list_peers` and one named `send_message`, each wherever it stands.
pub proof fn both_peer_tools_are_needed(reply: Tree, result: Tree, tools: Seq<Tree>)
    requires
        json::member(reply, "result"@) == Some(result),
        json::member(result, "tools"@) == Some(Tree::Array(tools)),
    ensures
        listed_names(reply) is Some,
        has_peer_tools(listed_names(reply)->0) <==> (exists|i: int|
            0 <= i < tools.len() && json::member(#[trigger] tools[i], "name"@) == Some(
                Tree::Text("list_peers"@),
            )) && (exists|j: int|
            0 <= j < tools.len() && json::member(#[trigger] tools[j], "name"@) == Some(
                Tree::Text("send_message"@),
            )),
{
    every_named_tool_is_listed(tools, "list_peers"@);
    every_named_tool_is_listed(tools, "send_message"@);
}

proof fn lemma_name_is_quoted(names: Seq<Seq<char>>, i: int)
    requires
        0 <= i < names.len(),
    ensures
        text::has_text(quoted_names(names), text::debug_form(names[i])),
    decreases names.len(),
{
    let none = Seq::<char>::empty();
    let all = quoted_names(names);
    let shown = text::debug_form(names[i]);
    if names.len() == 1 {
        text::lemma_text_between(none, shown, none);
        assert(none + shown + none =~= all);
    } else {
        let before = quoted_names(names.drop_last());
        if i == names.len() - 1 {
            text::lemma_text_between(before + ", "@, shown, none);
            assert(before + ", "@ + shown + none =~= all);
        } else {
            lemma_name_is_quoted(names.drop_last(), i);
            let after = ", "@ + text::debug_form(names.last());
            text::lemma_text_within(none, before, after, shown);
            assert(none + before + after =~= all);
        }
    }
}

/// The message for a list without both peer tools shows every name in it.
pub proof fn every_name_is_shown(names: Seq<Seq<char>>, i: int)
    requires
        0 <= i < names.len(),
    ensures
        text::has_text(missing_tools_message(names), text::debug_form(names[i])),
{
    lemma_name_is_quoted(names, i);
    let start = "tools/list missing peer tools: ["@;
    text::lemma_text_within(start, quoted_names(names), "]"@, text::debug_form(names[i]));
}

}
