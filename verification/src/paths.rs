//! Paths as plain text, separated by slashes, on Windows by backslashes too.

use vstd::prelude::*;

use crate::text;

verus! {

/// Directory name under grok home that holds peer JSON files and sockets.
pub const PEERS_DIR: &'static str = "peers";

/// `c` stands between the components of a path.
pub open spec fn separates(c: char, windows: bool) -> bool {
    c == '/' || (windows && c == '\\')
}

fn is_separator(c: char, windows: bool) -> (r: bool)
    ensures
        r == separates(c, windows),
{
    c == '/' || (windows && c == '\\')
}

/// `path` begins with a drive, a letter and a colon, as only Windows paths do.
pub open spec fn has_drive(path: Seq<char>, windows: bool) -> bool {
    &&& windows
    &&& path.len() >= 2
    &&& path[1] == ':'
    &&& ('a' <= path[0] && path[0] <= 'z') || ('A' <= path[0] && path[0] <= 'Z')
}

fn begins_with_drive(chars: &Vec<char>, windows: bool) -> (r: bool)
    ensures
        r == has_drive(chars@, windows),
{
    windows && chars.len() >= 2 && chars[1] == ':' && (('a' <= chars[0] && chars[0] <= 'z') || (
    'A' <= chars[0] && chars[0] <= 'Z'))
}

/// `name` below the directory `base`: a separator stands between the two unless
/// `base` is empty, ends with one, or is a drive and nothing more.
pub open spec fn joined_on(base: Seq<char>, name: Seq<char>, windows: bool) -> Seq<char> {
    if base.len() == 0 || separates(base.last(), windows) || (base.len() == 2 && has_drive(
        base,
        windows,
    )) {
        base + name
    } else if windows {
        base.push('\\') + name
    } else {
        base.push('/') + name
    }
}

/// `name` below the directory `base`, for a relative `name`.
pub fn join_path_on(base: &str, name: &str, windows: bool) -> (r: String)
    requires
        name@.len() > 0 ==> !separates(name@[0], windows) && !has_drive(name@, windows),
    ensures
        r@ == joined_on(base@, name@, windows),
{
    let chars = text::chars_of(base);
    let len: usize = chars.len();
    let mut out = base.to_owned();
    if len > 0 && !is_separator(chars[len - 1], windows) && !(len == 2 && begins_with_drive(
        &chars,
        windows,
    )) {
        out.push(
            if windows {
                '\\'
            } else {
                '/'
            },
        );
    }
    out.append(name);
    out
}

/// `name` below the directory `base`, between slashes.
pub open spec fn joined(base: Seq<char>, name: Seq<char>) -> Seq<char> {
    joined_on(base, name, false)
}

/// `name` below the directory `base`, for a relative `name`.
pub fn join_path(base: &str, name: &str) -> (r: String)
    requires
        name@.len() > 0 ==> name@[0] != '/',
    ensures
        r@ == joined(base@, name@),
{
    join_path_on(base, name, false)
}

/// The part of `path` behind its last slash.
pub open spec fn after_last_slash(path: Seq<char>) -> Seq<char>
    decreases path.len(),
{
    if path.len() == 0 || path.last() == '/' {
        Seq::empty()
    } else {
        after_last_slash(path.drop_last()).push(path.last())
    }
}

/// The last component of `path`: trailing slashes and `.` components count for
/// nothing, and there is none when what is left is empty or ends in `..`.
pub open spec fn last_component(path: Seq<char>) -> Option<Seq<char>>
    decreases path.len(),
{
    let tail = after_last_slash(path);
    if path.len() == 0 {
        None
    } else if tail.len() == 0 {
        last_component(path.drop_last())
    } else if tail == seq!['.'] {
        if tail.len() <= path.len() {
            last_component(path.take(path.len() - tail.len()))
        } else {
            None
        }
    } else if tail == seq!['.', '.'] {
        None
    } else {
        Some(tail)
    }
}

proof fn lemma_after_last_slash(path: Seq<char>, k: int)
    requires
        0 <= k <= path.len(),
        k == 0 || path[k - 1] == '/',
        forall|i: int| k <= i < path.len() ==> path[i] != '/',
    ensures
        after_last_slash(path) == path.skip(k),
    decreases path.len(),
{
    if path.len() > k {
        lemma_after_last_slash(path.drop_last(), k);
        assert(path.drop_last().skip(k).push(path.last()) =~= path.skip(k));
    } else {
        assert(path.skip(k) =~= Seq::<char>::empty());
    }
}

/// The last component of `path`, if it has one.
pub fn file_name(path: &str) -> (r: Option<String>)
    ensures
        r is Some <==> last_component(path@) is Some,
        r matches Some(name) ==> last_component(path@) == Some(name@),
{
    let chars = text::chars_of(path);
    let mut end: usize = chars.len();
    assert(chars@.take(end as int) =~= chars@);
    while end > 0
        invariant
            chars@ == path@,
            end <= chars@.len(),
            last_component(path@) == last_component(chars@.take(end as int)),
        decreases end,
    {
        let mut k: usize = end;
        while k > 0 && chars[k - 1] != '/'
            invariant
                k <= end <= chars@.len(),
                forall|i: int| k <= i < end ==> chars@[i] != '/',
            decreases k,
        {
            k -= 1;
        }
        let ghost head = chars@.take(end as int);
        proof {
            lemma_after_last_slash(head, k as int);
            assert(head.skip(k as int) =~= chars@.subrange(k as int, end as int));
            reveal_with_fuel(last_component, 2);
        }
        if k == end {
            proof {
                assert(head.drop_last() =~= chars@.take(end - 1));
            }
            end -= 1;
        } else if end - k == 1 && chars[k] == '.' {
            proof {
                assert(head.skip(k as int) =~= seq!['.']);
                assert(head.take(head.len() - 1) =~= chars@.take(k as int));
            }
            end = k;
        } else if end - k == 2 && chars[k] == '.' && chars[k + 1] == '.' {
            proof {
                assert(head.skip(k as int) =~= seq!['.', '.']);
            }
            return None;
        } else {
            let name = text::text_of(&chars, k, end);
            proof {
                let tail = head.skip(k as int);
                assert(tail.len() == 1 ==> tail[0] == chars@[k as int]);
                assert(tail.len() == 2 ==> tail[0] == chars@[k as int] && tail[1] == chars@[k + 1]);
                assert(tail != seq!['.']);
                assert(tail != seq!['.', '.']);
            }
            return Some(name);
        }
    }
    None
}

/// `path` is a root: a separator, on Windows also behind a drive.
pub open spec fn is_root(path: Seq<char>, windows: bool) -> bool {
    ||| path.len() == 1 && separates(path[0], windows)
    ||| path.len() == 3 && has_drive(path, windows) && separates(path[2], windows)
}

/// `path` without separators and `.` components at its end; a lone root or a lone
/// `.` stays.
pub open spec fn without_empty_end(path: Seq<char>, windows: bool) -> Seq<char>
    decreases path.len(),
{
    let n = path.len();
    if n >= 2 && separates(path[n - 1], windows) && !is_root(path, windows) {
        without_empty_end(path.drop_last(), windows)
    } else if n >= 2 && path[n - 1] == '.' && separates(path[n - 2], windows) {
        without_empty_end(path.drop_last(), windows)
    } else {
        path
    }
}

/// How much of `path` stands before its last component: all up to the last
/// separator, or to the drive where there is none.
pub open spec fn dir_len(path: Seq<char>, windows: bool) -> int
    decreases path.len(),
{
    if path.len() == 0 || separates(path.last(), windows) || (path.len() == 2 && has_drive(
        path,
        windows,
    )) {
        path.len() as int
    } else {
        dir_len(path.drop_last(), windows)
    }
}

/// The path without its last component; none for a root, a drive or an empty path.
pub open spec fn parent_of(path: Seq<char>, windows: bool) -> Option<Seq<char>> {
    let whole = without_empty_end(path, windows);
    if whole.len() == 0 || is_root(whole, windows) || (whole.len() == 2 && has_drive(
        whole,
        windows,
    )) {
        None
    } else {
        Some(without_empty_end(whole.take(dir_len(whole, windows)), windows))
    }
}

fn root_ends_at(chars: &Vec<char>, end: usize, windows: bool) -> (r: bool)
    requires
        end <= chars@.len(),
    ensures
        r == is_root(chars@.take(end as int), windows),
{
    if end == 1 {
        is_separator(chars[0], windows)
    } else {
        end == 3 && begins_with_drive(chars, windows) && is_separator(chars[2], windows)
    }
}

fn end_without_empty(chars: &Vec<char>, end: usize, windows: bool) -> (r: usize)
    requires
        end <= chars@.len(),
    ensures
        r <= end,
        without_empty_end(chars@.take(end as int), windows) == chars@.take(r as int),
{
    let mut n: usize = end;
    while n >= 2 && ((is_separator(chars[n - 1], windows) && !root_ends_at(chars, n, windows)) || (
    chars[n - 1] == '.' && is_separator(chars[n - 2], windows)))
        invariant
            n <= end <= chars@.len(),
            without_empty_end(chars@.take(end as int), windows) == without_empty_end(
                chars@.take(n as int),
                windows,
            ),
        decreases n,
    {
        assert(chars@.take(n as int).drop_last() =~= chars@.take(n - 1));
        n -= 1;
    }
    n
}

/// The path without its last component, if it has one.
pub fn parent(path: &str, windows: bool) -> (r: Option<String>)
    ensures
        match r {
            Some(dir) => parent_of(path@, windows) == Some(dir@),
            None => parent_of(path@, windows) is None,
        },
{
    let chars = text::chars_of(path);
    assert(chars@.take(chars@.len() as int) =~= chars@);
    let end = end_without_empty(&chars, chars.len(), windows);
    let ghost whole = chars@.take(end as int);
    let on_drive: bool = begins_with_drive(&chars, windows);
    if end == 0 || root_ends_at(&chars, end, windows) || (end == 2 && on_drive) {
        return None;
    }
    let mut k: usize = end;
    assert(whole.take(end as int) =~= whole);
    while k > 0 && !is_separator(chars[k - 1], windows) && !(k == 2 && on_drive)
        invariant
            k <= end <= chars@.len(),
            whole == chars@.take(end as int),
            on_drive == has_drive(chars@, windows),
            dir_len(whole, windows) == dir_len(whole.take(k as int), windows),
        decreases k,
    {
        assert(whole.take(k as int).drop_last() =~= whole.take(k - 1));
        k -= 1;
    }
    assert(whole.take(k as int) =~= chars@.take(k as int));
    let cut = end_without_empty(&chars, k, windows);
    let dir = text::text_of(&chars, 0, cut);
    assert(dir@ =~= chars@.take(cut as int));
    Some(dir)
}

/// The directory of the peer registry below `root`.
pub open spec fn peers_path(root: Seq<char>) -> Seq<char> {
    joined(root, PEERS_DIR@)
}

/// The directory of the peer registry below `root`.
pub fn peers_dir_in(root: &str) -> (r: String)
    ensures
        r@ == peers_path(root@),
{
    proof {
        reveal_strlit("peers");
    }
    join_path(root, PEERS_DIR)
}

/// The directory of the peer registry below the grok home.
pub fn peers_dir(grok_home: &str) -> (r: String)
    ensures
        r@ == peers_path(grok_home@),
{
    peers_dir_in(grok_home)
}

/// Path helper for callers that need the peers directory without locking.
pub fn peers_root(grok_home: &str) -> (r: String)
    ensures
        r@ == peers_path(grok_home@),
{
    peers_dir(grok_home)
}

/// Path helper for callers that need the peers directory without locking.
pub fn peers_root_in(root: &str) -> (r: String)
    ensures
        r@ == peers_path(root@),
{
    peers_dir_in(root)
}

/// One character of a session id as it stands in a file name.
pub open spec fn safe_char(c: char) -> char {
    if text::ascii_alphanumeric(c) || c == '-' {
        c
    } else {
        '_'
    }
}

/// A session id as it stands in a file name.
pub open spec fn safe_id(session_id: Seq<char>) -> Seq<char> {
    session_id.map_values(|c: char| safe_char(c))
}

/// The session id with everything but ASCII letters, digits and `-` replaced by
/// `_`.
pub fn safe_session_id(session_id: &str) -> (r: String)
    ensures
        r@ == safe_id(session_id@),
{
    let mut out = String::new();
    for c in it: session_id.chars()
        invariant
            it.seq() == session_id@,
            out@ == safe_id(session_id@.take(it.index() as int)),
    {
        assert(session_id@.take(it.index() + 1) =~= session_id@.take(it.index() as int).push(c));
        if text::is_ascii_alphanumeric(c) || c == '-' {
            out.push(c);
        } else {
            out.push('_');
        }
        assert(out@ =~= safe_id(session_id@.take(it.index() + 1)));
    }
    assert(session_id@.take(session_id@.len() as int) =~= session_id@);
    out
}

/// The file of a session in the peers directory, told apart by `suffix`.
pub open spec fn session_file(
    root: Seq<char>,
    session_id: Seq<char>,
    suffix: Seq<char>,
) -> Seq<char> {
    joined(peers_path(root), safe_id(session_id) + suffix)
}

/// The file of a session in the peers directory.
pub fn session_file_in(root: &str, session_id: &str, suffix: &str) -> (r: String)
    requires
        suffix@.len() > 0 ==> suffix@[0] != '/',
    ensures
        r@ == session_file(root@, session_id@, suffix@),
{
    let mut name = safe_session_id(session_id);
    name.append(suffix);
    proof {
        if session_id@.len() > 0 {
            assert(name@[0] == safe_char(session_id@[0]));
        }
    }
    join_path(peers_dir_in(root).as_str(), name.as_str())
}

/// Whatever the session id holds, the file stands directly in the peers
/// directory: its last component is the whole file name.
pub proof fn session_file_stays_in_peers_dir(
    root: Seq<char>,
    session_id: Seq<char>,
    suffix: Seq<char>,
)
    requires
        suffix.len() > 2,
        forall|i: int| 0 <= i < suffix.len() ==> suffix[i] != '/',
    ensures
        last_component(session_file(root, session_id, suffix)) == Some(
            safe_id(session_id) + suffix,
        ),
        session_file(root, session_id, suffix).take(
            session_file(root, session_id, suffix).len() - (safe_id(session_id) + suffix).len() - 1,
        ) == peers_path(root),
{
    reveal_strlit("peers");
    let dir = peers_path(root);
    let name = safe_id(session_id) + suffix;
    let file = session_file(root, session_id, suffix);
    assert(dir.last() == 's');
    assert(file == dir.push('/') + name);
    let k = dir.len() as int + 1;
    assert forall|i: int| k <= i < file.len() implies file[i] != '/' by {
        assert(file[i] == name[i - k]);
        if i - k < safe_id(session_id).len() {
            assert(name[i - k] == safe_char(session_id[i - k]));
        } else {
            assert(name[i - k] == suffix[i - k - safe_id(session_id).len()]);
        }
    }
    lemma_after_last_slash(file, k);
    assert(file.skip(k) =~= name);
    assert(file.take(file.len() - name.len() - 1) =~= dir);
}

// -- Laws -------------------------------------------------------------------

/// A session id in a file name keeps its ASCII letters, digits and hyphens; every
/// other character becomes an underscore.
pub proof fn file_names_are_plain(session_id: Seq<char>, i: int)
    requires
        0 <= i < session_id.len(),
    ensures
        safe_id(session_id).len() == session_id.len(),
        ({
            let c = session_id[i];
            if ('0' <= c && c <= '9') || ('A' <= c && c <= 'Z') || ('a' <= c && c <= 'z') || c
                == '-' {
                safe_id(session_id)[i] == c
            } else {
                safe_id(session_id)[i] == '_'
            }
        }),
{
}

/// The file of a session stands in the directory `peers` below the root, under
/// the session's id.
pub proof fn session_file_is_below_the_root(
    root: Seq<char>,
    session_id: Seq<char>,
    suffix: Seq<char>,
)
    requires
        root.len() > 0,
        root.last() != '/',
    ensures
        session_file(root, session_id, suffix) == root + "/peers/"@ + safe_id(session_id) + suffix,
        session_file(root + "/"@, session_id, suffix) == root + "/peers/"@ + safe_id(session_id)
            + suffix,
        peers_path(root) == root + "/peers"@,
{
    reveal_strlit("peers");
    reveal_strlit("/peers/");
    reveal_strlit("/peers");
    reveal_strlit("/");
    let name = safe_id(session_id) + suffix;
    let slashed = root + "/"@;
    assert(peers_path(root) =~= root + "/peers"@);
    assert(peers_path(slashed) =~= root + "/peers"@);
    assert(peers_path(root).last() == 's');
    assert(root + "/peers/"@ + safe_id(session_id) + suffix =~= (root + "/peers"@).push('/') + name);
}

/// A name goes below a directory behind one separator: that of the platform where
/// there is none yet.
pub proof fn names_are_joined_by_one_separator(base: Seq<char>, name: Seq<char>)
    ensures
        base.len() > 0 && base.last() != '/' ==> joined_on(base, name, false) == base + seq!['/']
            + name,
        base.len() > 0 && base.last() == '/' ==> joined_on(base, name, false) == base + name,
        base.len() > 2 && base.last() != '/' && base.last() != '\\' ==> joined_on(base, name, true)
            == base + seq!['\\'] + name,
        base.len() > 0 && (base.last() == '/' || base.last() == '\\') ==> joined_on(
            base,
            name,
            true,
        ) == base + name,
        joined_on(Seq::empty(), name, false) == name,
        joined_on(Seq::empty(), name, true) == name,
{
    assert(base.push('/') + name =~= base + seq!['/'] + name);
    assert(base.push('\\') + name =~= base + seq!['\\'] + name);
    assert(Seq::<char>::empty() + name =~= name);
}

/// The last component of a path is what stands behind its last slash. A slash at
/// the end, or a component that is a single dot, changes nothing; two dots are no
/// name.
pub proof fn last_component_is_what_stands_last(dir: Seq<char>, name: Seq<char>)
    requires
        name.len() > 0,
        !name.contains('/'),
        name != seq!['.'],
        name != seq!['.', '.'],
    ensures
        last_component(dir + seq!['/'] + name) == Some(name),
        last_component(name) == Some(name),
        last_component(dir + seq!['/']) == last_component(dir),
        last_component(dir + seq!['/', '.']) == last_component(dir),
        last_component(dir + seq!['/', '.', '.']) is None,
{
    assert forall|i: int| 0 <= i < name.len() implies name[i] != '/' by {
        assert(name.contains(name[i]));
    }
    let path = dir + seq!['/'] + name;
    let k = dir.len() as int + 1;
    assert forall|i: int| k <= i < path.len() implies path[i] != '/' by {
        assert(path[i] == name[i - k]);
    }
    lemma_after_last_slash(path, k);
    assert(path.skip(k) =~= name);
    lemma_after_last_slash(name, 0);
    assert(name.skip(0) =~= name);
    let slashed = dir + seq!['/'];
    lemma_after_last_slash(slashed, slashed.len() as int);
    assert(slashed.skip(slashed.len() as int) =~= Seq::<char>::empty());
    assert(slashed.drop_last() =~= dir);
    let dotted = dir + seq!['/', '.'];
    lemma_after_last_slash(dotted, k);
    assert(dotted.skip(k) =~= seq!['.']);
    assert(dotted.take(dotted.len() - 1) =~= slashed);
    let up = dir + seq!['/', '.', '.'];
    lemma_after_last_slash(up, k);
    assert(up.skip(k) =~= seq!['.', '.']);
    reveal_with_fuel(last_component, 3);
}

proof fn lemma_dir_len(path: Seq<char>, k: int, windows: bool)
    requires
        0 < k <= path.len(),
        separates(path[k - 1], windows),
        forall|i: int| k <= i < path.len() ==> !separates(#[trigger] path[i], windows),
        k > 2 || !has_drive(path, windows),
    ensures
        dir_len(path, windows) == k,
    decreases path.len(),
{
    if path.len() > k {
        assert(!separates(path[path.len() - 1], windows));
        let rest = path.drop_last();
        assert forall|i: int| k <= i < rest.len() implies !separates(#[trigger] rest[i], windows) by {
            assert(rest[i] == path[i]);
        }
        lemma_dir_len(rest, k, windows);
    }
}

/// The directory of what was put below a directory is that directory.
pub proof fn parent_undoes_joining(dir: Seq<char>, name: Seq<char>, windows: bool)
    requires
        dir.len() > 2,
        !separates(dir.last(), windows),
        dir.last() != '.',
        name.len() > 0,
        forall|i: int| 0 <= i < name.len() ==> !separates(#[trigger] name[i], windows),
        name != seq!['.'],
    ensures
        parent_of(joined_on(dir, name, windows), windows) == Some(dir),
{
    let path = joined_on(dir, name, windows);
    let n = path.len() as int;
    let k = dir.len() as int + 1;
    assert(n == k + name.len());
    assert(path[k - 1] == if windows {
        '\\'
    } else {
        '/'
    });
    assert forall|i: int| k <= i < n implies !separates(#[trigger] path[i], windows) by {
        assert(path[i] == name[i - k]);
    }
    assert(!separates(path[n - 1], windows));
    if path[n - 1] == '.' && separates(path[n - 2], windows) {
        assert(n - 1 == k);
        assert(name =~= seq!['.']);
    }
    assert(without_empty_end(path, windows) == path);
    lemma_dir_len(path, k, windows);
    let cut = path.take(k);
    assert(cut.drop_last() =~= dir);
    assert(cut[cut.len() - 1] == path[k - 1]);
    reveal_with_fuel(without_empty_end, 3);
    assert(dir[dir.len() - 1] == dir.last());
    assert(without_empty_end(dir, windows) == dir);
    assert(without_empty_end(cut, windows) == dir);
}

}
