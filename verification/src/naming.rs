//! Peer name sanitization and collision handling.

use vstd::prelude::*;

use crate::clock::unix_now_nanos;
use crate::paths;
use crate::seqs;
use crate::text;

verus! {

/// Max length for a peer display name (aligned with session title limits).
pub const MAX_PEER_NAME_LEN: usize = 80;

// -- Sanitizing -------------------------------------------------------------

/// `s` without its control characters.
pub open spec fn without_controls(s: Seq<char>) -> Seq<char> {
    s.filter(|c: char| !text::control(c))
}

/// One more character after an already collapsed text: white space becomes a
/// single space, and none at the very beginning.
pub open spec fn collapse_step(out: Seq<char>, c: char) -> Seq<char> {
    if !text::white_space(c) {
        out.push(c)
    } else if out.len() > 0 && out.last() != ' ' {
        out.push(' ')
    } else {
        out
    }
}

/// `s` with each run of white space replaced by one space, and leading white
/// space dropped.
pub open spec fn collapsed(s: Seq<char>) -> Seq<char>
    decreases s.len(),
{
    if s.len() == 0 {
        s
    } else {
        collapse_step(collapsed(s.drop_last()), s.last())
    }
}

/// The first `n` characters of `s`, or all of it when it is shorter.
pub open spec fn at_most(s: Seq<char>, n: int) -> Seq<char> {
    if s.len() <= n {
        s
    } else {
        s.take(n)
    }
}

/// The display name made of `raw`.
pub open spec fn sanitized(raw: Seq<char>) -> Seq<char> {
    text::trimmed(at_most(collapsed(without_controls(text::trimmed(raw))), MAX_PEER_NAME_LEN as int))
}

/// What every display name satisfies: no control characters, no white space but
/// single spaces between other characters, and a bounded length.
pub open spec fn clean_name(s: Seq<char>) -> bool {
    &&& s.len() <= MAX_PEER_NAME_LEN
    &&& forall|i: int| 0 <= i < s.len() ==> !text::control(#[trigger] s[i])
    &&& forall|i: int| 0 <= i < s.len() && text::white_space(#[trigger] s[i]) ==> s[i] == ' '
    &&& forall|i: int| 0 <= i < s.len() - 1 && #[trigger] s[i] == ' ' ==> s[i + 1] != ' '
    &&& s.len() > 0 ==> s[0] != ' ' && s.last() != ' '
}

proof fn lemma_collapsed_push(s: Seq<char>, c: char)
    ensures
        collapsed(s.push(c)) == collapse_step(collapsed(s), c),
{
    assert(s.push(c).drop_last() =~= s);
}

proof fn lemma_without_controls_push(s: Seq<char>, c: char)
    ensures
        without_controls(s.push(c)) == if text::control(c) {
            without_controls(s)
        } else {
            without_controls(s).push(c)
        },
{
    reveal(Seq::filter);
    assert(s.push(c).drop_last() =~= s);
}

proof fn lemma_collapsed_grows(s: Seq<char>, t: Seq<char>)
    requires
        s.is_prefix_of(t),
    ensures
        collapsed(s).is_prefix_of(collapsed(t)),
    decreases t.len(),
{
    if s.len() == t.len() {
        assert(s =~= t);
    } else {
        assert(s.is_prefix_of(t.drop_last())) by {
            assert(t.drop_last().subrange(0, s.len() as int) =~= t.subrange(0, s.len() as int));
        }
        lemma_collapsed_grows(s, t.drop_last());
        let a = collapsed(t.drop_last());
        assert(collapsed(t).subrange(0, collapsed(s).len() as int) =~= a.subrange(
            0,
            collapsed(s).len() as int,
        ));
    }
}

proof fn lemma_without_controls_grows(s: Seq<char>, t: Seq<char>)
    requires
        s.is_prefix_of(t),
    ensures
        without_controls(s).is_prefix_of(without_controls(t)),
    decreases t.len(),
{
    if s.len() == t.len() {
        assert(s =~= t);
    } else {
        let u = t.drop_last();
        assert(s.is_prefix_of(u)) by {
            assert(u.subrange(0, s.len() as int) =~= t.subrange(0, s.len() as int));
        }
        lemma_without_controls_grows(s, u);
        assert(u.push(t.last()) =~= t);
        lemma_without_controls_push(u, t.last());
        let n = without_controls(s).len() as int;
        assert(without_controls(t).subrange(0, n) =~= without_controls(u).subrange(0, n));
    }
}

/// Sanitize a user-supplied name: trim, collapse whitespace, strip controls.
pub fn sanitize_peer_name(raw: &str) -> (r: String)
    ensures
        r@ == sanitized(raw@),
{
    let trimmed_raw = text::trim(raw);
    let chars = text::chars_of(trimmed_raw.as_str());
    let mut out = String::new();
    let mut count: usize = 0;
    let mut prev_space: bool = false;
    let mut i: usize = 0;
    let ghost full = collapsed(without_controls(chars@));
    assert(chars@.take(0) =~= Seq::<char>::empty());
    assert(without_controls(Seq::<char>::empty()) =~= Seq::<char>::empty()) by {
        reveal(Seq::filter);
    }
    while i < chars.len() && count < MAX_PEER_NAME_LEN
        invariant
            i <= chars@.len(),
            count == out@.len(),
            count <= MAX_PEER_NAME_LEN,
            out@ == collapsed(without_controls(chars@.take(i as int))),
            prev_space == (out@.len() > 0 && out@.last() == ' '),
        decreases chars@.len() - i,
    {
        let ch: char = chars[i];
        proof {
            let head = chars@.take(i as int);
            assert(chars@.take(i + 1) =~= head.push(ch));
            lemma_without_controls_push(head, ch);
            if !text::control(ch) {
                lemma_collapsed_push(without_controls(head), ch);
            }
        }
        i += 1;
        if text::is_control(ch) {
            continue;
        }
        if text::is_white_space(ch) {
            if !prev_space && count > 0 {
                out.push(' ');
                count += 1;
                prev_space = true;
            }
            continue;
        }
        prev_space = false;
        out.push(ch);
        count += 1;
    }
    proof {
        let head = chars@.take(i as int);
        assert(head.is_prefix_of(chars@));
        lemma_without_controls_grows(head, chars@);
        lemma_collapsed_grows(without_controls(head), without_controls(chars@));
        if i == chars@.len() {
            assert(head =~= chars@);
        }
        assert(out@ =~= at_most(full, MAX_PEER_NAME_LEN as int));
    }
    text::trim(out.as_str())
}

/// `clean_name` but for a possible space at the end and the length.
spec fn clean_so_far(s: Seq<char>) -> bool {
    &&& forall|i: int| 0 <= i < s.len() ==> !text::control(#[trigger] s[i])
    &&& forall|i: int| 0 <= i < s.len() && text::white_space(#[trigger] s[i]) ==> s[i] == ' '
    &&& forall|i: int| 0 <= i < s.len() - 1 && #[trigger] s[i] == ' ' ==> s[i + 1] != ' '
    &&& s.len() > 0 ==> s[0] != ' '
}

proof fn lemma_collapsed_clean(s: Seq<char>)
    requires
        forall|i: int| 0 <= i < s.len() ==> !text::control(#[trigger] s[i]),
    ensures
        clean_so_far(collapsed(s)),
    decreases s.len(),
{
    if s.len() > 0 {
        lemma_collapsed_clean(s.drop_last());
        let out = collapsed(s.drop_last());
        let next = collapse_step(out, s.last());
        assert(!text::control(s[s.len() - 1]));
        assert forall|i: int| 0 <= i < next.len() - 1 && #[trigger] next[i] == ' ' implies next[i + 1]
            != ' ' by {
            assert(out[i] == ' ');
            if i + 1 < out.len() {
                assert(out[i + 1] != ' ');
            } else {
                assert(out.last() == ' ');
            }
        }
    }
}

proof fn lemma_without_controls(s: Seq<char>)
    ensures
        forall|i: int|
            0 <= i < without_controls(s).len() ==> !text::control(#[trigger] without_controls(s)[i]),
        (forall|i: int| 0 <= i < s.len() ==> !text::control(#[trigger] s[i])) ==> without_controls(s)
            == s,
    decreases s.len(),
{
    reveal(Seq::filter);
    if s.len() > 0 {
        lemma_without_controls(s.drop_last());
        assert(s.drop_last().push(s.last()) =~= s);
        lemma_without_controls_push(s.drop_last(), s.last());
        if forall|i: int| 0 <= i < s.len() ==> !text::control(#[trigger] s[i]) {
            assert forall|i: int| 0 <= i < s.drop_last().len() implies !text::control(
                #[trigger] s.drop_last()[i],
            ) by {
                assert(!text::control(s[i]));
            }
            assert(!text::control(s[s.len() - 1]));
        }
    } else {
        assert(without_controls(s) =~= s);
    }
}

proof fn lemma_collapsed_noop(s: Seq<char>)
    requires
        clean_so_far(s),
    ensures
        collapsed(s) == s,
    decreases s.len(),
{
    if s.len() > 0 {
        let t = s.drop_last();
        assert forall|i: int| 0 <= i < t.len() - 1 && #[trigger] t[i] == ' ' implies t[i + 1] != ' ' by {
            assert(s[i] == ' ');
        }
        assert forall|i: int| 0 <= i < t.len() implies !text::control(#[trigger] t[i]) by {
            assert(!text::control(s[i]));
        }
        lemma_collapsed_noop(t);
        if text::white_space(s.last()) {
            assert(s[s.len() - 1] == ' ');
            assert(t.len() > 0);
            assert(t.last() != ' ') by {
                assert(s[s.len() - 2] == t.last());
            }
        }
        assert(collapsed(s) =~= s);
    }
}

/// Every sanitized name is clean.
pub proof fn sanitized_is_clean(raw: Seq<char>)
    ensures
        clean_name(sanitized(raw)),
{
    let t = text::trimmed(raw);
    lemma_without_controls(t);
    lemma_collapsed_clean(without_controls(t));
    let c = collapsed(without_controls(t));
    let m = at_most(c, MAX_PEER_NAME_LEN as int);
    assert(clean_so_far(m)) by {
        assert forall|i: int| 0 <= i < m.len() - 1 && #[trigger] m[i] == ' ' implies m[i + 1] != ' ' by {
            assert(c[i] == ' ');
        }
        assert forall|i: int| 0 <= i < m.len() implies !text::control(#[trigger] m[i]) by {
            assert(!text::control(c[i]));
        }
    }
    let (a, b) = text::lemma_trimmed(m);
    let s = sanitized(raw);
    assert(forall|i: int| 0 <= i < s.len() ==> #[trigger] s[i] == m[a + i]);
    assert forall|i: int| 0 <= i < s.len() - 1 && #[trigger] s[i] == ' ' implies s[i + 1] != ' ' by {
        assert(m[a + i] == ' ');
        assert(s[i + 1] == m[a + i + 1]);
    }
}

/// A clean name is left as it is.
pub proof fn clean_name_is_kept(name: Seq<char>)
    requires
        clean_name(name),
    ensures
        sanitized(name) == name,
{
    if name.len() > 0 {
        assert(text::white_space(name[0]) ==> name[0] == ' ');
        assert(text::white_space(name[name.len() - 1]) ==> name[name.len() - 1] == ' ');
    }
    text::lemma_trimmed_noop(name);
    lemma_without_controls(name);
    lemma_collapsed_noop(name);
}

/// Sanitizing a name twice is sanitizing it once.
pub proof fn sanitize_is_idempotent(raw: Seq<char>)
    ensures
        sanitized(sanitized(raw)) == sanitized(raw),
{
    sanitized_is_clean(raw);
    clean_name_is_kept(sanitized(raw));
}

// -- Default names ----------------------------------------------------------

/// The ASCII letters and digits of a session id.
pub open spec fn compact_id(session_id: Seq<char>) -> Seq<char> {
    session_id.filter(|c: char| text::ascii_alphanumeric(c))
}

/// The last `n` characters of `s`, or all of it when it is shorter.
pub open spec fn at_end(s: Seq<char>, n: int) -> Seq<char> {
    if s.len() <= n {
        s
    } else {
        s.skip(s.len() - n)
    }
}

/// The last `n` ASCII letters and digits of `session_id`.
pub fn short_id(session_id: &str, n: usize) -> (r: String)
    ensures
        r@ == at_end(compact_id(session_id@), n as int),
{
    let chars = text::chars_of(session_id);
    let mut compact: Vec<char> = Vec::new();
    let mut i: usize = 0;
    proof {
        reveal(Seq::filter);
        assert(chars@.take(0) =~= Seq::<char>::empty());
        assert(compact_id(Seq::<char>::empty()) =~= Seq::<char>::empty());
    }
    while i < chars.len()
        invariant
            i <= chars@.len(),
            compact@ == compact_id(chars@.take(i as int)),
        decreases chars@.len() - i,
    {
        proof {
            reveal(Seq::filter);
            assert(chars@.take(i + 1).drop_last() =~= chars@.take(i as int));
        }
        if text::is_ascii_alphanumeric(chars[i]) {
            compact.push(chars[i]);
        }
        i += 1;
    }
    assert(chars@.take(chars@.len() as int) =~= chars@);
    let len: usize = compact.len();
    let from: usize = if len <= n { 0 } else { len - n };
    let r = text::text_of(&compact, from, len);
    assert(r@ =~= at_end(compact@, n as int));
    r
}

/// The two-character suffix that tells sessions in one folder apart.
pub open spec fn id_suffix(session_id: Seq<char>) -> Seq<char> {
    if compact_id(session_id).len() == 0 {
        "00"@
    } else {
        text::lower(at_end(compact_id(session_id), 2))
    }
}

/// The last two letters or digits of the id in lower case, `00` when it has none.
pub fn short_id_suffix(session_id: &str) -> (r: String)
    ensures
        r@ == id_suffix(session_id@),
{
    let tail = short_id(session_id, 2);
    if tail.as_str().is_empty() {
        "00".to_owned()
    } else {
        text::to_ascii_lowercase(tail.as_str())
    }
}

/// `name`, or `session` when it is empty.
pub open spec fn or_session(name: Seq<char>) -> Seq<char> {
    if name.len() == 0 {
        "session"@
    } else {
        name
    }
}

/// The folder part of a default name.
pub open spec fn folder_name(cwd: Seq<char>) -> Seq<char> {
    or_session(
        sanitized(
            match paths::last_component(cwd) {
                Some(name) => name,
                None => "session"@,
            },
        ),
    )
}

fn non_empty_or_session(name: String) -> (r: String)
    ensures
        r@ == or_session(name@),
{
    if name.as_str().is_empty() {
        "session".to_owned()
    } else {
        name
    }
}

/// The name of a session that was given none.
pub open spec fn default_name(cwd: Seq<char>, session_id: Seq<char>) -> Seq<char> {
    folder_name(cwd) + "-"@ + id_suffix(session_id)
}

/// Derive a default peer name from the working directory folder + short id.
///
/// Example: cwd `/home/u/my-app`, session `…3f91` → `my-app-91`.
pub fn default_name_from_cwd(cwd: &str, session_id: &str) -> (r: String)
    ensures
        r@ == default_name(cwd@, session_id@),
{
    let folder = match paths::file_name(cwd) {
        Some(name) => name,
        None => "session".to_owned(),
    };
    let mut out = non_empty_or_session(sanitize_peer_name(folder.as_str()));
    out.append("-");
    out.append(short_id_suffix(session_id).as_str());
    out
}

// -- Live names -------------------------------------------------------------

/// How many numbered variants of a name are tried, the bare name among them.
pub const MAX_NAME_VARIANTS: u32 = 9_999;

/// The `n`-th variant of `base`: the name itself, then `-2`, `-3`, …
pub open spec fn variant(base: Seq<char>, n: nat) -> Seq<char> {
    if n <= 1 {
        base
    } else {
        base + "-"@ + text::decimal(n)
    }
}

/// The names in `taken` hold `name`, in whatever ASCII case.
pub open spec fn name_taken(taken: Seq<String>, name: Seq<char>) -> bool {
    exists|i: int| 0 <= i < taken.len() && text::lower(#[trigger] taken[i]@) == text::lower(name)
}

/// The name a request for `preferred` starts from.
pub open spec fn base_name(preferred: Seq<char>) -> Seq<char> {
    or_session(sanitized(preferred))
}

/// `name` is the first variant of `base` that `taken` does not hold.
pub open spec fn first_free_variant(base: Seq<char>, taken: Seq<String>, name: Seq<char>) -> bool {
    exists|n: nat|
        {
            &&& 1 <= n <= MAX_NAME_VARIANTS
            &&& name == #[trigger] variant(base, n)
            &&& !name_taken(taken, name)
            &&& forall|m: nat| 1 <= m < n ==> name_taken(taken, #[trigger] variant(base, m))
        }
}

/// Every variant of `base` is held by `taken`.
pub open spec fn all_variants_taken(base: Seq<char>, taken: Seq<String>) -> bool {
    forall|n: nat|
        1 <= n <= MAX_NAME_VARIANTS ==> name_taken(taken, #[trigger] variant(base, n))
}

/// `name` is `base` with a suffix of the form used when no variant is free.
pub open spec fn fallback_name(base: Seq<char>, name: Seq<char>) -> bool {
    exists|x: nat| x < 0xffff && name == base + "-"@ + #[trigger] text::numeral(x, 16)
}

/// What allocating a live name for `preferred` beside `taken` gives.
pub open spec fn live_name_for(preferred: Seq<char>, taken: Seq<String>, name: Seq<char>) -> bool {
    let base = base_name(preferred);
    if all_variants_taken(base, taken) {
        fallback_name(base, name)
    } else {
        first_free_variant(base, taken, name)
    }
}

fn is_taken(taken: &Vec<String>, name: &str) -> (r: bool)
    ensures
        r == name_taken(taken@, name@),
{
    let mut i: usize = 0;
    while i < taken.len()
        invariant
            i <= taken@.len(),
            forall|j: int| 0 <= j < i ==> text::lower(#[trigger] taken@[j]@) != text::lower(name@),
        decreases taken@.len() - i,
    {
        if text::eq_ignore_ascii_case(taken[i].as_str(), name) {
            return true;
        }
        i += 1;
    }
    false
}

/// The suffix for a clock reading in nanoseconds.
pub fn fallback_suffix_at(nanos: u128) -> (r: String)
    ensures
        r@ == text::numeral((nanos % 0xffff) as nat, 16),
{
    text::to_hex(nanos % 0xffff)
}

/// A hexadecimal suffix made of the clock.
pub fn uuid_fallback_suffix() -> (r: String)
    ensures
        exists|x: nat| x < 0xffff && r@ == #[trigger] text::numeral(x, 16),
{
    let nanos = unix_now_nanos();
    let r = fallback_suffix_at(nanos);
    assert(((nanos % 0xffff) as nat) < 0xffff);
    r
}

/// Pick a live name that does not collide with `taken` (case-insensitive).
///
/// If `preferred` is free, return it. Otherwise append `-2`, `-3`, …
pub fn allocate_live_name(preferred: &str, taken: &Vec<String>) -> (r: String)
    ensures
        live_name_for(preferred@, taken@, r@),
{
    let base = non_empty_or_session(sanitize_peer_name(preferred));
    let ghost b = base@;
    if !is_taken(taken, base.as_str()) {
        assert(variant(b, 1) == b);
        return base;
    }
    let mut n: u32 = 2;
    while n < 10_000
        invariant
            base@ == b,
            b == base_name(preferred@),
            2 <= n <= 10_000,
            forall|m: nat| 1 <= m < n ==> name_taken(taken@, #[trigger] variant(b, m)),
        decreases 10_000 - n,
    {
        let mut candidate = base.clone();
        candidate.append("-");
        candidate.append(text::to_decimal(n as u64).as_str());
        assert(candidate@ == variant(b, n as nat));
        if !is_taken(taken, candidate.as_str()) {
            return candidate;
        }
        n += 1;
    }
    let mut out = base;
    out.append("-");
    let suffix = uuid_fallback_suffix();
    out.append(suffix.as_str());
    out
}

proof fn lemma_variants_differ(base: Seq<char>, m: nat, n: nat)
    requires
        1 <= m < n,
    ensures
        text::lower(variant(base, m)) != text::lower(variant(base, n)),
{
    let lb = text::lower(base);
    let dash = text::lower("-"@);
    reveal_strlit("-");
    text::lemma_lower_add(base + "-"@, text::decimal(n));
    text::lemma_lower_add(base, "-"@);
    text::lemma_decimal_lower(n);
    let right = lb + dash + text::decimal(n);
    assert(text::lower(variant(base, n)) == right);
    if m == 1 {
        assert(right.len() > lb.len());
    } else {
        text::lemma_lower_add(base + "-"@, text::decimal(m));
        text::lemma_decimal_lower(m);
        let left = lb + dash + text::decimal(m);
        if left == right {
            let k = (lb + dash).len() as int;
            assert(left.skip(k) =~= text::decimal(m));
            assert(right.skip(k) =~= text::decimal(n));
            text::lemma_decimal_injective(m, n);
        }
    }
}

/// Names that hold the first `k` variants of a name are at least `k` in number.
proof fn lemma_taken_count(base: Seq<char>, taken: Seq<String>, k: nat)
    requires
        forall|n: nat| 1 <= n <= k ==> name_taken(taken, #[trigger] variant(base, n)),
    ensures
        taken.len() >= k,
    decreases k,
{
    if k > 0 {
        assert(name_taken(taken, variant(base, k)));
        let i = choose|i: int|
            0 <= i < taken.len() && text::lower(#[trigger] taken[i]@) == text::lower(
                variant(base, k),
            );
        let rest = taken.remove(i);
        assert forall|n: nat| 1 <= n <= k - 1 implies name_taken(rest, #[trigger] variant(base, n)) by {
            assert(name_taken(taken, variant(base, n)));
            let j = choose|j: int|
                0 <= j < taken.len() && text::lower(#[trigger] taken[j]@) == text::lower(
                    variant(base, n),
                );
            lemma_variants_differ(base, n, k);
            if j < i {
                assert(rest[j] == taken[j]);
            } else {
                assert(j != i);
                assert(rest[j - 1] == taken[j]);
            }
        }
        lemma_taken_count(base, rest, (k - 1) as nat);
    }
}

/// With fewer names taken than there are variants, the allocated name collides
/// with none of them.
pub proof fn live_name_is_free(preferred: Seq<char>, taken: Seq<String>, name: Seq<char>)
    requires
        taken.len() < MAX_NAME_VARIANTS,
        live_name_for(preferred, taken, name),
    ensures
        !name_taken(taken, name),
        first_free_variant(base_name(preferred), taken, name),
{
    if all_variants_taken(base_name(preferred), taken) {
        lemma_taken_count(base_name(preferred), taken, MAX_NAME_VARIANTS as nat);
    }
}

/// A clean name that is free is the name that is allocated.
pub proof fn free_name_is_kept(preferred: Seq<char>, taken: Seq<String>, name: Seq<char>)
    requires
        clean_name(preferred),
        preferred.len() > 0,
        !name_taken(taken, preferred),
        live_name_for(preferred, taken, name),
    ensures
        name == preferred,
{
    clean_name_is_kept(preferred);
    assert(variant(preferred, 1) == preferred);
    let n = choose|n: nat|
        {
            &&& 1 <= n <= MAX_NAME_VARIANTS
            &&& name == #[trigger] variant(preferred, n)
            &&& !name_taken(taken, name)
            &&& forall|m: nat| 1 <= m < n ==> name_taken(taken, #[trigger] variant(preferred, m))
        };
    if n > 1 {
        assert(name_taken(taken, variant(preferred, 1)));
    }
}

/// An allocated name is never empty.
pub proof fn live_names_are_not_empty(preferred: Seq<char>, taken: Seq<String>, name: Seq<char>)
    requires
        live_name_for(preferred, taken, name),
    ensures
        name.len() > 0,
{
    let base = base_name(preferred);
    reveal_strlit("session");
    assert(base.len() > 0);
    if !all_variants_taken(base, taken) {
        let n = choose|n: nat|
            {
                &&& 1 <= n <= MAX_NAME_VARIANTS
                &&& name == #[trigger] variant(base, n)
                &&& !name_taken(taken, name)
                &&& forall|m: nat| 1 <= m < n ==> name_taken(taken, #[trigger] variant(base, m))
            };
        assert(variant(base, n).len() > 0);
    }
}

spec fn seen(c: char) -> bool {
    !text::control(c) && !text::white_space(c)
}

proof fn lemma_nothing_seen(s: Seq<char>)
    requires
        forall|i: int| 0 <= i < s.len() ==> text::white_space(#[trigger] s[i]),
    ensures
        s.filter(|c: char| seen(c)) == Seq::<char>::empty(),
{
    let keep = |c: char| seen(c);
    assert forall|i: int| 0 <= i < s.len() implies !keep(#[trigger] s[i]) by {}
    seqs::lemma_filter_none(s, keep);
}

proof fn lemma_collapsed_seen(s: Seq<char>)
    requires
        forall|i: int| 0 <= i < s.len() ==> !text::control(#[trigger] s[i]),
    ensures
        collapsed(s).filter(|c: char| seen(c)) == s.filter(|c: char| seen(c)),
        collapsed(s).len() <= s.len(),
    decreases s.len(),
{
    reveal(Seq::filter);
    if s.len() > 0 {
        let t = s.drop_last();
        assert forall|i: int| 0 <= i < t.len() implies !text::control(#[trigger] t[i]) by {
            assert(t[i] == s[i]);
        }
        lemma_collapsed_seen(t);
        let out = collapsed(t);
        let next = collapse_step(out, s.last());
        assert(next == out || next.drop_last() =~= out);
        assert(!text::control(s[s.len() - 1]));
    }
}

proof fn lemma_trimming_keeps_what_is_seen(s: Seq<char>)
    ensures
        text::trimmed(s).filter(|c: char| seen(c)) == s.filter(|c: char| seen(c)),
{
    let keep = |c: char| seen(c);
    let t = text::trimmed(s);
    let (a, b) = text::lemma_trimmed(s);
    assert(s =~= s.take(a) + t + s.skip(b));
    seqs::lemma_filter_add(s.take(a) + t, s.skip(b), keep);
    seqs::lemma_filter_add(s.take(a), t, keep);
    lemma_nothing_seen(s.take(a));
    lemma_nothing_seen(s.skip(b));
    assert(s.filter(keep) =~= t.filter(keep));
}

/// Sanitizing loses nothing that can be seen: but for control characters and
/// white space, a name of at most 80 characters keeps all of its characters in
/// their order, and a longer one keeps the first of them.
pub proof fn sanitizing_keeps_what_is_seen(raw: Seq<char>)
    ensures
        ({
            let kept = sanitized(raw).filter(
                |c: char| !text::control(c) && !text::white_space(c),
            );
            let given = raw.filter(|c: char| !text::control(c) && !text::white_space(c));
            &&& kept.is_prefix_of(given)
            &&& raw.len() <= 80 ==> kept == given
        }),
{
    let keep = |c: char| seen(c);
    let same = |c: char| !text::control(c) && !text::white_space(c);
    let visible = |c: char| !text::control(c);
    let t = text::trimmed(raw);
    lemma_trimming_keeps_what_is_seen(raw);
    let w = without_controls(t);
    assert forall|c: char| #[trigger] keep(c) implies visible(c) by {}
    seqs::lemma_filter_twice(t, keep, visible);
    assert(w == t.filter(visible));
    assert(w.filter(keep) == t.filter(keep));
    lemma_without_controls(t);
    lemma_collapsed_seen(w);
    let c = collapsed(w);
    let m = at_most(c, MAX_PEER_NAME_LEN as int);
    assert(c =~= m + c.skip(m.len() as int));
    seqs::lemma_filter_add(m, c.skip(m.len() as int), keep);
    let s = sanitized(raw);
    lemma_trimming_keeps_what_is_seen(m);
    seqs::lemma_filter_same(s, keep, same);
    seqs::lemma_filter_same(raw, keep, same);
    assert(raw.filter(keep).subrange(0, s.filter(keep).len() as int) =~= s.filter(keep));
    if raw.len() <= 80 {
        seqs::lemma_filter_members(t, visible);
        let (a, b) = text::lemma_trimmed(raw);
        assert(t.len() == b - a);
        assert(c.skip(m.len() as int) =~= Seq::<char>::empty());
        lemma_nothing_seen(c.skip(m.len() as int));
        assert(raw.filter(keep) =~= s.filter(keep));
    }
}

proof fn lemma_collapsed_alike(a: Seq<char>, b: Seq<char>, more: Seq<char>)
    requires
        collapsed(a) == collapsed(b),
    ensures
        collapsed(a + more) == collapsed(b + more),
    decreases more.len(),
{
    if more.len() == 0 {
        assert(a + more =~= a);
        assert(b + more =~= b);
    } else {
        assert((a + more).drop_last() =~= a + more.drop_last());
        assert((b + more).drop_last() =~= b + more.drop_last());
        lemma_collapsed_alike(a, b, more.drop_last());
    }
}

proof fn lemma_collapsed_blank(s: Seq<char>, blank: Seq<char>)
    requires
        forall|i: int| 0 <= i < blank.len() ==> text::white_space(#[trigger] blank[i]),
    ensures
        collapsed(s + blank) == collapsed(s) || collapsed(s + blank) == collapsed(s).push(' '),
    decreases blank.len(),
{
    if blank.len() == 0 {
        assert(s + blank =~= s);
    } else {
        let rest = blank.drop_last();
        assert forall|i: int| 0 <= i < rest.len() implies text::white_space(#[trigger] rest[i]) by {
            assert(rest[i] == blank[i]);
        }
        lemma_collapsed_blank(s, rest);
        assert((s + blank).drop_last() =~= s + rest);
        assert(text::white_space(blank[blank.len() - 1]));
        assert((s + blank).last() == blank.last());
    }
}

proof fn lemma_trimmed_push_space(s: Seq<char>)
    ensures
        text::trimmed(s.push(' ')) == text::trimmed(s),
{
    let (a, b) = text::lemma_trimmed(s);
    let t = text::trimmed(s);
    let left = s.take(a);
    let right = s.skip(b).push(' ');
    assert(s.push(' ') =~= left + t + right);
    assert forall|i: int| 0 <= i < right.len() implies text::white_space(#[trigger] right[i]) by {
        if i < s.skip(b).len() {
            assert(right[i] == s[b + i]);
        }
    }
    text::trimming_takes_the_white_space_around(left, t, right);
}

proof fn lemma_blank_without_controls(s: Seq<char>)
    requires
        forall|i: int| 0 <= i < s.len() ==> text::white_space(#[trigger] s[i]),
    ensures
        forall|i: int|
            0 <= i < without_controls(s).len() ==> text::white_space(
                #[trigger] without_controls(s)[i],
            ),
{
    let keep = |c: char| !text::control(c);
    seqs::lemma_filter_members(s, keep);
    let w = without_controls(s);
    assert forall|i: int| 0 <= i < w.len() implies text::white_space(#[trigger] w[i]) by {
        assert(s.contains(w[i]));
        let j = choose|j: int| 0 <= j < s.len() && s[j] == w[i];
        assert(text::white_space(s[j]));
    }
}

proof fn lemma_sanitized_untrimmed(raw: Seq<char>)
    ensures
        sanitized(raw) == text::trimmed(
            at_most(collapsed(without_controls(raw)), MAX_PEER_NAME_LEN as int),
        ),
{
    let keep = |c: char| !text::control(c);
    let (a, b) = text::lemma_trimmed(raw);
    let left = raw.take(a);
    let t = text::trimmed(raw);
    let right = raw.skip(b);
    assert(raw =~= left + t + right);
    seqs::lemma_filter_add(left + t, right, keep);
    seqs::lemma_filter_add(left, t, keep);
    let wl = without_controls(left);
    let wt = without_controls(t);
    let wr = without_controls(right);
    assert(without_controls(raw) == wl + wt + wr);
    lemma_blank_without_controls(left);
    lemma_blank_without_controls(right);
    let none = Seq::<char>::empty();
    lemma_blank_collapses(wl);
    lemma_collapsed_alike(wl, none, wt);
    assert(none + wt =~= wt);
    lemma_collapsed_blank(wl + wt, wr);
    let y = collapsed(wt);
    let n = MAX_PEER_NAME_LEN as int;
    let z = collapsed(without_controls(raw));
    if z != y {
        assert(z == y.push(' '));
        if y.len() < n {
            lemma_trimmed_push_space(y);
        } else {
            assert(z.take(n) =~= y.take(n));
            assert(y.len() == n ==> y.take(n) =~= y);
        }
    }
}

proof fn lemma_blank_collapses(s: Seq<char>)
    requires
        forall|i: int| 0 <= i < s.len() ==> text::white_space(#[trigger] s[i]),
    ensures
        collapsed(s) == Seq::<char>::empty(),
    decreases s.len(),
{
    if s.len() > 0 {
        let t = s.drop_last();
        assert forall|i: int| 0 <= i < t.len() implies text::white_space(#[trigger] t[i]) by {
            assert(t[i] == s[i]);
        }
        lemma_blank_collapses(t);
        assert(text::white_space(s[s.len() - 1]));
    } else {
        assert(s =~= Seq::<char>::empty());
    }
}

/// A control character counts for nothing, wherever in a name it stands.
pub proof fn controls_count_for_nothing(a: Seq<char>, c: char, b: Seq<char>)
    requires
        text::control(c),
    ensures
        sanitized(a + seq![c] + b) == sanitized(a + b),
{
    let keep = |c: char| !text::control(c);
    seqs::lemma_filter_add(a + seq![c], b, keep);
    seqs::lemma_filter_add(a, seq![c], keep);
    seqs::lemma_filter_add(a, b, keep);
    seqs::lemma_filter_none(seq![c], keep);
    assert(without_controls(a + seq![c] + b) =~= without_controls(a + b));
    lemma_sanitized_untrimmed(a + seq![c] + b);
    lemma_sanitized_untrimmed(a + b);
}

/// White space of any kind counts as a space, and two spaces count as one.
pub proof fn white_space_counts_as_one_space(a: Seq<char>, w: char, b: Seq<char>)
    requires
        text::white_space(w),
        !text::control(w),
    ensures
        sanitized(a + seq![w] + b) == sanitized(a + seq![' '] + b),
        sanitized(a + seq![' ', ' '] + b) == sanitized(a + seq![' '] + b),
{
    let keep = |c: char| !text::control(c);
    let wa = without_controls(a);
    let wb = without_controls(b);
    let one = seq![w];
    let space = seq![' '];
    let two = seq![' ', ' '];
    seqs::lemma_filter_all(one, keep);
    seqs::lemma_filter_all(space, keep);
    seqs::lemma_filter_all(two, keep);
    seqs::lemma_filter_add(a, one, keep);
    seqs::lemma_filter_add(a, space, keep);
    seqs::lemma_filter_add(a, two, keep);
    seqs::lemma_filter_add(a + one, b, keep);
    seqs::lemma_filter_add(a + space, b, keep);
    seqs::lemma_filter_add(a + two, b, keep);
    assert(wa + one =~= wa.push(w));
    assert(wa + space =~= wa.push(' '));
    assert(wa + two =~= wa.push(' ').push(' '));
    lemma_collapsed_push(wa, w);
    lemma_collapsed_push(wa, ' ');
    lemma_collapsed_push(wa.push(' '), ' ');
    lemma_collapsed_alike(wa + one, wa + space, wb);
    lemma_collapsed_alike(wa + two, wa + space, wb);
    lemma_sanitized_untrimmed(a + one + b);
    lemma_sanitized_untrimmed(a + space + b);
    lemma_sanitized_untrimmed(a + two + b);
}

/// The short form of a session id is made of its ASCII letters and digits in
/// their order: all of them, or the last ones where there are more.
pub proof fn short_ids_are_ends(a: Seq<char>, b: Seq<char>, c: char, n: int)
    requires
        0 <= n,
    ensures
        compact_id(a + b) == compact_id(a) + compact_id(b),
        compact_id(seq![c]) == if ('0' <= c && c <= '9') || ('A' <= c && c <= 'Z') || ('a' <= c && c
            <= 'z') {
            seq![c]
        } else {
            Seq::empty()
        },
        a.len() <= n ==> at_end(a, n) == a,
        b.len() == n ==> at_end(a + b, n) == b,
{
    let keep = |c: char| text::ascii_alphanumeric(c);
    seqs::lemma_filter_add(a, b, keep);
    if keep(c) {
        seqs::lemma_filter_all(seq![c], keep);
    } else {
        seqs::lemma_filter_none(seq![c], keep);
    }
    if b.len() == n {
        assert(at_end(a + b, n) =~= b);
    }
}

/// The suffix of a default name is the last two letters or digits of the session
/// id in lower case, the only one there is, or `00`.
pub proof fn suffix_is_the_end_of_the_id(session_id: Seq<char>, head: Seq<char>, end: Seq<char>)
    requires
        compact_id(session_id) == head + end,
        end.len() == 2 || (head.len() == 0 && end.len() <= 2),
    ensures
        end.len() > 0 ==> id_suffix(session_id) == text::lower(end),
        end.len() == 0 ==> id_suffix(session_id) == "00"@,
{
    if head.len() == 0 {
        assert(head + end =~= end);
    } else {
        assert(at_end(head + end, 2) =~= end);
    }
}

/// The default name of a session is the name of its folder, a hyphen, and the
/// suffix made of its id, where the folder's name is a clean one.
pub proof fn default_name_is_folder_and_suffix(
    dir: Seq<char>,
    folder: Seq<char>,
    session_id: Seq<char>,
)
    requires
        clean_name(folder),
        folder.len() > 0,
        !folder.contains('/'),
        folder != seq!['.'],
        folder != seq!['.', '.'],
    ensures
        default_name(dir + seq!['/'] + folder, session_id) == folder + "-"@ + id_suffix(session_id),
        default_name(folder, session_id) == folder + "-"@ + id_suffix(session_id),
{
    paths::last_component_is_what_stands_last(dir, folder);
    clean_name_is_kept(folder);
}

/// A name that a live session bears is not given again: the newcomer gets it with
/// the first number from 2 on that leaves it free.
pub proof fn taken_name_gets_the_first_free_number(
    preferred: Seq<char>,
    taken: Seq<String>,
    name: Seq<char>,
)
    requires
        clean_name(preferred),
        preferred.len() > 0,
        exists|i: int|
            0 <= i < taken.len() && text::lower((#[trigger] taken[i])@) == text::lower(preferred),
        taken.len() < MAX_NAME_VARIANTS,
        live_name_for(preferred, taken, name),
    ensures
        forall|i: int| 0 <= i < taken.len() ==> text::lower((#[trigger] taken[i])@) != text::lower(name),
        exists|n: nat|
            {
                &&& 2 <= n
                &&& name == preferred + "-"@ + #[trigger] text::decimal(n)
                &&& forall|m: nat|
                    2 <= m < n ==> exists|i: int|
                        0 <= i < taken.len() && text::lower((#[trigger] taken[i])@) == text::lower(
                            preferred + "-"@ + #[trigger] text::decimal(m),
                        )
            },
{
    clean_name_is_kept(preferred);
    live_name_is_free(preferred, taken, name);
    let n = choose|n: nat|
        {
            &&& 1 <= n <= MAX_NAME_VARIANTS
            &&& name == #[trigger] variant(preferred, n)
            &&& !name_taken(taken, name)
            &&& forall|m: nat| 1 <= m < n ==> name_taken(taken, #[trigger] variant(preferred, m))
        };
    assert(variant(preferred, 1) == preferred);
    assert(name_taken(taken, preferred));
    assert(n >= 2);
    assert(name == preferred + "-"@ + text::decimal(n));
    assert forall|m: nat| 2 <= m < n implies exists|i: int|
        0 <= i < taken.len() && text::lower((#[trigger] taken[i])@) == text::lower(
            preferred + "-"@ + #[trigger] text::decimal(m),
        ) by {
        assert(name_taken(taken, variant(preferred, m)));
    }
}

/// Where a name and all of its numbered variants are taken, the name gets a suffix
/// of another kind: a dash and up to four hexadecimal digits.
pub proof fn exhausted_name_gets_a_suffix(preferred: Seq<char>, taken: Seq<String>, name: Seq<char>)
    requires
        clean_name(preferred),
        preferred.len() > 0,
        forall|n: nat| 1 <= n <= 9999 ==> name_taken(taken, #[trigger] variant(preferred, n)),
        live_name_for(preferred, taken, name),
    ensures
        exists|x: nat| x < 0xffff && name == preferred + "-"@ + #[trigger] text::numeral(x, 16),
{
    clean_name_is_kept(preferred);
}

}
