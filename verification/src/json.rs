//! JSON values: what a `serde_json::Value` holds, and the calls on it that the
//! protocols need.

use vstd::prelude::*;
use vstd::utf8::*;

use serde_json::Value;

verus! {

#[verifier::external_type_specification]
#[verifier::external_body]
pub struct ExValue(serde_json::Value);

#[verifier::external_type_specification]
#[verifier::external_body]
#[verifier::reject_recursive_types(K)]
#[verifier::reject_recursive_types(V)]
pub struct ExJsonMap<K, V>(serde_json::Map<K, V>);

/// What a JSON value holds.
pub enum Tree {
    Null,
    Bool(bool),
    /// A whole number that fits in 64 bits, signed or unsigned.
    Integer(int),
    /// Any other number, by the text it is printed with.
    Float(Seq<char>),
    Text(Seq<char>),
    Array(Seq<Tree>),
    Object(Map<Seq<char>, Tree>),
}

/// The contents of a `serde_json::Value`.
pub uninterp spec fn json_tree(v: Value) -> Tree;

/// The contents of some values in a row.
pub open spec fn trees(items: Seq<Value>) -> Seq<Tree> {
    Seq::new(items.len(), |i: int| json_tree(items[i]))
}

/// The member `key` of an object; nothing for a missing member or another kind
/// of value.
pub open spec fn member(t: Tree, key: Seq<char>) -> Option<Tree> {
    match t {
        Tree::Object(m) => if m.contains_key(key) {
            Some(m[key])
        } else {
            None
        },
        _ => None,
    }
}

/// The text of a text value.
pub open spec fn as_text(t: Option<Tree>) -> Option<Seq<char>> {
    match t {
        Some(Tree::Text(s)) => Some(s),
        _ => None,
    }
}

/// The text of the member `key`, if it is a text.
pub open spec fn text_member(t: Tree, key: Seq<char>) -> Option<Seq<char>> {
    as_text(member(t, key))
}

/// The member `key` of an optional value.
pub open spec fn member_of(t: Option<Tree>, key: Seq<char>) -> Option<Tree> {
    match t {
        Some(v) => member(v, key),
        None => None,
    }
}

// -- Reading ----------------------------------------------------------------

/// `serde_json::Value::get` with a text index: the member of that name of an
/// object, and `None` for a missing member or any other kind of value.
#[verifier::external_body]
pub(crate) fn json_get<'a>(v: &'a Value, key: &str) -> (r: Option<&'a Value>)
    ensures
        match r {
            Some(x) => member(json_tree(*v), key@) == Some(json_tree(*x)),
            None => member(json_tree(*v), key@) is None,
        },
{
    v.get(key)
}

/// `serde_json::Value::as_str`: the text of a text value, `None` for any other.
#[verifier::external_body]
pub(crate) fn json_as_str<'a>(v: &'a Value) -> (r: Option<&'a str>)
    ensures
        match r {
            Some(s) => json_tree(*v) == Tree::Text(s@),
            None => !(json_tree(*v) is Text),
        },
{
    v.as_str()
}

/// `serde_json::Value::as_array`: the elements of an array, `None` for any other
/// value.
#[verifier::external_body]
pub(crate) fn json_as_array<'a>(v: &'a Value) -> (r: Option<&'a Vec<Value>>)
    ensures
        match r {
            Some(items) => json_tree(*v) == Tree::Array(trees(items@)),
            None => !(json_tree(*v) is Array),
        },
{
    v.as_array()
}

/// `serde_json::Value::clone`: a value with the same contents.
#[verifier::external_body]
pub(crate) fn json_clone(v: &Value) -> (r: Value)
    ensures
        json_tree(r) == json_tree(*v),
{
    v.clone()
}

/// The text of the member `key`, if it is a text.
pub(crate) fn get_text(v: &Value, key: &str) -> (r: Option<String>)
    ensures
        match r {
            Some(s) => text_member(json_tree(*v), key@) == Some(s@),
            None => text_member(json_tree(*v), key@) is None,
        },
{
    match json_get(v, key) {
        Some(x) => match json_as_str(x) {
            Some(s) => Some(s.to_owned()),
            None => None,
        },
        None => None,
    }
}

// -- Building ---------------------------------------------------------------

/// The variant `serde_json::Value::Null`.
#[verifier::external_body]
pub(crate) fn json_null() -> (r: Value)
    ensures
        json_tree(r) == Tree::Null,
{
    Value::Null
}

/// The variant `serde_json::Value::Bool`.
#[verifier::external_body]
pub(crate) fn json_bool(b: bool) -> (r: Value)
    ensures
        json_tree(r) == Tree::Bool(b),
{
    Value::Bool(b)
}

/// `serde_json::Value::from` on an `i64`: that whole number.
#[verifier::external_body]
pub(crate) fn json_integer(n: i64) -> (r: Value)
    ensures
        json_tree(r) == Tree::Integer(n as int),
{
    Value::from(n)
}

/// The variant `serde_json::Value::String`.
#[verifier::external_body]
pub(crate) fn json_text(s: String) -> (r: Value)
    ensures
        json_tree(r) == Tree::Text(s@),
{
    Value::String(s)
}

/// The variant `serde_json::Value::Array`.
#[verifier::external_body]
pub(crate) fn json_array(items: Vec<Value>) -> (r: Value)
    ensures
        json_tree(r) == Tree::Array(trees(items@)),
{
    Value::Array(items)
}

/// The members that a `serde_json::Map` holds.
pub uninterp spec fn json_members(m: serde_json::Map<String, Value>) -> Map<Seq<char>, Tree>;

/// No members.
pub open spec fn no_members() -> Map<Seq<char>, Tree> {
    Map::empty()
}

/// `serde_json::Map::new`: a map without members.
#[verifier::external_body]
fn json_map() -> (r: serde_json::Map<String, Value>)
    ensures
        json_members(r) == no_members(),
{
    serde_json::Map::new()
}

/// `serde_json::Map::insert`: the member `key` is `v` from now on, whether or not
/// there was one before, and the other members stay.
#[verifier::external_body]
fn json_insert(m: &mut serde_json::Map<String, Value>, key: String, v: Value)
    ensures
        json_members(*final(m)) == json_members(*old(m)).insert(key@, json_tree(v)),
{
    m.insert(key, v);
}

/// The variant `serde_json::Value::Object`.
#[verifier::external_body]
fn json_object(m: serde_json::Map<String, Value>) -> (r: Value)
    ensures
        json_tree(r) == Tree::Object(json_members(m)),
{
    Value::Object(m)
}

/// An object under construction.
pub(crate) struct Fields {
    map: serde_json::Map<String, Value>,
}

impl Fields {
    /// The members put so far.
    pub closed spec fn members(&self) -> Map<Seq<char>, Tree> {
        json_members(self.map)
    }

    /// No members.
    pub(crate) fn new() -> (r: Self)
        ensures
            r.members() == Map::<Seq<char>, Tree>::empty(),
    {
        Fields { map: json_map() }
    }

    /// Set one member.
    pub(crate) fn put(&mut self, key: &str, v: Value)
        ensures
            final(self).members() == old(self).members().insert(key@, json_tree(v)),
    {
        json_insert(&mut self.map, key.to_owned(), v);
    }

    /// The object.
    pub(crate) fn build(self) -> (r: Value)
        ensures
            json_tree(r) == Tree::Object(self.members()),
    {
        json_object(self.map)
    }
}

// -- Text -------------------------------------------------------------------

/// What `serde_json::from_str` makes of a text: the value it reads, or the
/// message of its error.
pub uninterp spec fn parsed_json(text: Seq<char>) -> Result<Tree, Seq<char>>;

/// What `serde_json::from_slice` makes of bytes: the value it reads, or the
/// message of its error.
pub uninterp spec fn parsed_json_bytes(bytes: Seq<u8>) -> Result<Tree, Seq<char>>;

/// The compact text that a value is printed as.
pub uninterp spec fn rendered_json(t: Tree) -> Seq<char>;

/// `r` is the outcome `named`.
pub open spec fn is_outcome(r: Result<Value, String>, named: Result<Tree, Seq<char>>) -> bool {
    match r {
        Ok(v) => named == Ok::<Tree, Seq<char>>(json_tree(v)),
        Err(e) => named == Err::<Tree, Seq<char>>(e@),
    }
}

/// `text` reads as `t`.
pub open spec fn reads_as(text: Seq<char>, t: Tree) -> bool {
    parsed_json(text) == Ok::<Tree, Seq<char>>(t)
}

/// `t` holds no floats and is nested at most `depth` levels deep, so its text
/// reads back as the same value.
pub open spec fn reads_back(t: Tree, depth: nat) -> bool
    decreases depth,
{
    match t {
        Tree::Float(_) => false,
        Tree::Array(items) => depth > 0 && forall|i: int|
            0 <= i < items.len() ==> reads_back(#[trigger] items[i], (depth - 1) as nat),
        Tree::Object(m) => depth > 0 && forall|k: Seq<char>| #[trigger]
            m.contains_key(k) ==> reads_back(m[k], (depth - 1) as nat),
        _ => true,
    }
}

/// `t` is nested at most `depth` levels deep, and none of its keys, texts and
/// floats holds `c`.
pub open spec fn lacks(t: Tree, c: char, depth: nat) -> bool
    decreases depth,
{
    match t {
        Tree::Float(s) => !s.contains(c),
        Tree::Text(s) => !s.contains(c),
        Tree::Array(items) => depth > 0 && forall|i: int|
            0 <= i < items.len() ==> lacks(#[trigger] items[i], c, (depth - 1) as nat),
        Tree::Object(m) => depth > 0 && forall|k: Seq<char>| #[trigger]
            m.contains_key(k) ==> !k.contains(c) && lacks(m[k], c, (depth - 1) as nat),
        _ => true,
    }
}

/// `c` is an ASCII capital.
pub open spec fn capital(c: char) -> bool {
    'A' <= c && c <= 'Z'
}

/// How deep the parser follows nested arrays and objects.
pub const MAX_JSON_DEPTH: u8 = 127;

/// `serde_json::from_str::<Value>`, its error turned into its message.
#[verifier::external_body]
pub(crate) fn parse_json(text: &str) -> (r: Result<Value, String>)
    ensures
        is_outcome(r, parsed_json(text@)),
{
    serde_json::from_str::<Value>(text).map_err(|e| e.to_string())
}

/// What a body of bytes reads as: that of the text it encodes, if it encodes one.
pub open spec fn body_outcome(bytes: Seq<u8>) -> Result<Tree, Seq<char>> {
    if valid_utf8(bytes) {
        parsed_json(decode_utf8(bytes))
    } else {
        parsed_json_bytes(bytes)
    }
}

/// `serde_json::from_slice::<Value>`, its error turned into its message. On the
/// UTF-8 bytes of a text it does what `serde_json::from_str` does on the text,
/// since that reads the same bytes by the same parser.
#[verifier::external_body]
pub(crate) fn parse_json_bytes(bytes: &Vec<u8>) -> (r: Result<Value, String>)
    ensures
        is_outcome(r, parsed_json_bytes(bytes@)),
        is_outcome(r, body_outcome(bytes@)),
{
    serde_json::from_slice::<Value>(bytes).map_err(|e| e.to_string())
}

/// `serde_json::Value::to_string`, the compact form. Objects are kept in key
/// order, so the text depends on the contents alone. It holds no line feed, since
/// the writer escapes control characters and adds no white space; a capital in it
/// comes from a key, a text or a float, since literals and escapes are written in
/// lower case; the text of an object stands in braces; and `serde_json::from_str`
/// reads the value back when it holds no floats and is not nested beyond the
/// parser's limit.
#[verifier::external_body]
pub(crate) fn render_json(v: &Value) -> (r: String)
    ensures
        r@ == rendered_json(json_tree(*v)),
        forall|i: int| 0 <= i < r@.len() ==> #[trigger] r@[i] != '\n',
        forall|c: char, depth: nat| capital(c) && #[trigger] lacks(json_tree(*v), c, depth)
            ==> !r@.contains(c),
        json_tree(*v) is Object ==> r@.len() >= 2 && r@[0] == '{' && r@.last() == '}',
        reads_back(json_tree(*v), MAX_JSON_DEPTH as nat) ==> reads_as(r@, json_tree(*v)),
{
    v.to_string()
}

}
