//! The Cursor API key.

use vstd::prelude::*;

use serde_json::Value;

use crate::error::CursorSdkError;
use crate::json;
use crate::json::{get_text, json_get, parse_json, Tree};
use crate::text;

verus! {

/// Process env var for the Cursor user/service API key (never `XAI_API_KEY`).
pub const CURSOR_API_KEY_ENV: &'static str = "CURSOR_API_KEY";

/// A key without surrounding white space; none when nothing is left.
pub open spec fn usable_key(key: Option<Seq<char>>) -> Option<Seq<char>> {
    match key {
        Some(k) => if text::trimmed(k).len() > 0 {
            Some(text::trimmed(k))
        } else {
            None
        },
        None => None,
    }
}

/// The key stored under `cursor::api_key`; nothing else in the file counts.
pub open spec fn stored_key(auth: Tree) -> Option<Seq<char>> {
    usable_key(json::as_text(json::member_of(json::member(auth, "cursor::api_key"@), "key"@)))
}

/// The key stored in the contents of `auth.json`.
pub fn stored_key_in(auth: &Value) -> (r: Option<String>)
    ensures
        text::is_text(r, stored_key(json::json_tree(*auth))),
{
    let entry = match json_get(auth, "cursor::api_key") {
        Some(v) => v,
        None => return None,
    };
    match get_text(entry, "key") {
        Some(key) => {
            let trimmed = text::trim(key.as_str());
            if trimmed.as_str().is_empty() {
                None
            } else {
                Some(trimmed)
            }
        },
        None => None,
    }
}

/// Read `cursor::api_key` from the text of `auth.json` without touching xAI
/// scopes. There is no key in a file that cannot be read or is not JSON.
pub fn read_stored_cursor_api_key(raw: Option<&str>) -> (r: Option<String>)
    ensures
        text::is_text(
            r,
            match raw {
                Some(contents) => match json::parsed_json(contents@) {
                    Ok(auth) => stored_key(auth),
                    Err(_) => None,
                },
                None => None,
            },
        ),
{
    let contents = match raw {
        Some(contents) => contents,
        None => return None,
    };
    match parse_json(contents) {
        Ok(auth) => stored_key_in(&auth),
        Err(_) => None,
    }
}

/// `r` is the usable key `key`, or the error for a missing one.
pub open spec fn resolves_to(r: Result<String, CursorSdkError>, key: Option<Seq<char>>) -> bool {
    match key {
        Some(k) => r is Ok && r->Ok_0@ == k,
        None => r is Err && r->Err_0 is Message && r->Err_0.shown()
            == crate::error::MISSING_API_KEY@,
    }
}

/// Resolve the Cursor API key: the value of `CURSOR_API_KEY` first, then
/// `read_disk`, which is not called when the first is usable.
pub fn resolve_cursor_api_key<F: FnOnce() -> Option<String>>(
    env_key: Option<String>,
    read_disk: F,
) -> (r: Result<String, CursorSdkError>)
    requires
        usable_key(text::opt_view(env_key)) is None ==> read_disk.requires(()),
    ensures
        match usable_key(text::opt_view(env_key)) {
            Some(key) => resolves_to(r, Some(key)),
            None => exists|stored: Option<String>| #[trigger]
                read_disk.ensures((), stored) && resolves_to(r, usable_key(text::opt_view(stored))),
        },
{
    match &env_key {
        Some(key) => {
            let trimmed = text::trim(key.as_str());
            if !trimmed.as_str().is_empty() {
                return Ok(trimmed);
            }
        },
        None => {},
    }
    let stored = read_disk();
    match &stored {
        Some(key) => {
            let trimmed = text::trim(key.as_str());
            if !trimmed.as_str().is_empty() {
                return Ok(trimmed);
            }
        },
        None => {},
    }
    Err(CursorSdkError::missing_api_key())
}

// -- Laws -------------------------------------------------------------------

/// Only the Cursor scope of `auth.json` is read: two files that agree on it hold
/// the same key, whatever else they hold.
pub proof fn only_the_cursor_scope_counts(auth: Tree, other: Tree)
    requires
        json::member(auth, "cursor::api_key"@) == json::member(other, "cursor::api_key"@),
    ensures
        stored_key(auth) == stored_key(other),
{
}

/// A resolved key is never blank and never has white space around it.
pub proof fn resolved_key_is_trimmed(key: Option<Seq<char>>)
    ensures
        usable_key(key) matches Some(k) ==> k.len() > 0 && text::trimmed(k) == k,
{
    match key {
        Some(k) => text::trim_is_idempotent(k),
        None => {},
    }
}

/// The stored key is the text under `key` in the object under `cursor::api_key`,
/// without the white space around it; a blank one is none.
pub proof fn stored_key_is_read(auth: Tree, entry: Map<Seq<char>, Tree>, key: Seq<char>)
    requires
        auth matches Tree::Object(m) && m.contains_key("cursor::api_key"@) && m["cursor::api_key"@]
            == Tree::Object(entry),
        entry.contains_key("key"@),
        entry["key"@] == Tree::Text(key),
    ensures
        text::trimmed(key).len() > 0 ==> stored_key(auth) == Some(text::trimmed(key)),
        text::trimmed(key).len() == 0 ==> stored_key(auth) is None,
        stored_key(Tree::Object(Map::empty())) is None,
{
}

/// A key is usable if and only if it is not blank, and then it is the key itself
/// but for the white space around it.
pub proof fn keys_are_usable_unless_blank(key: Seq<char>)
    ensures
        text::trimmed(key).len() > 0 ==> usable_key(Some(key)) == Some(text::trimmed(key)),
        text::trimmed(key).len() == 0 ==> usable_key(Some(key)) is None,
        usable_key(None) is None,
{
}

/// A usable key is given back as it is; without one there is an error.
pub proof fn usable_key_is_given_back(r: Result<String, CursorSdkError>, key: Option<Seq<char>>)
    requires
        resolves_to(r, key),
    ensures
        key matches Some(k) ==> (r matches Ok(given) && given@ == k),
        key is None ==> (r matches Err(e) && e.shown() == crate::error::MISSING_API_KEY@),
{
}

}
