//! Character-level string operations, with their meaning stated on `Seq<char>`.

use vstd::prelude::*;

verus! {

/// `String::push` appends one character to the end of the string.
pub assume_specification[ String::push ](s: &mut String, c: char)
    ensures
        final(s)@ == old(s)@.push(c),
;

// -- Character classes ------------------------------------------------------

/// The Unicode `White_Space` property.
pub open spec fn white_space(c: char) -> bool {
    ||| '\u{9}' <= c && c <= '\u{d}'
    ||| c == ' '
    ||| c == '\u{85}'
    ||| c == '\u{a0}'
    ||| c == '\u{1680}'
    ||| '\u{2000}' <= c && c <= '\u{200a}'
    ||| c == '\u{2028}'
    ||| c == '\u{2029}'
    ||| c == '\u{202f}'
    ||| c == '\u{205f}'
    ||| c == '\u{3000}'
}

/// True for the characters with the Unicode `White_Space` property.
pub fn is_white_space(c: char) -> (r: bool)
    ensures
        r == white_space(c),
{
    ('\u{9}' <= c && c <= '\u{d}') || c == ' ' || c == '\u{85}' || c == '\u{a0}' || c == '\u{1680}'
        || ('\u{2000}' <= c && c <= '\u{200a}') || c == '\u{2028}' || c == '\u{2029}' || c
        == '\u{202f}' || c == '\u{205f}' || c == '\u{3000}'
}

/// The Unicode general category `Cc`.
pub open spec fn control(c: char) -> bool {
    ||| c <= '\u{1f}'
    ||| '\u{7f}' <= c && c <= '\u{9f}'
}

/// True for control characters.
pub fn is_control(c: char) -> (r: bool)
    ensures
        r == control(c),
{
    c <= '\u{1f}' || ('\u{7f}' <= c && c <= '\u{9f}')
}

/// ASCII letters and digits.
pub open spec fn ascii_alphanumeric(c: char) -> bool {
    ||| '0' <= c && c <= '9'
    ||| 'A' <= c && c <= 'Z'
    ||| 'a' <= c && c <= 'z'
}

/// True for ASCII letters and digits.
pub fn is_ascii_alphanumeric(c: char) -> (r: bool)
    ensures
        r == ascii_alphanumeric(c),
{
    ('0' <= c && c <= '9') || ('A' <= c && c <= 'Z') || ('a' <= c && c <= 'z')
}

/// The ASCII lower case of one character.
pub open spec fn lower_char(c: char) -> char {
    if 'A' <= c && c <= 'Z' {
        (c as u32 + 32) as char
    } else {
        c
    }
}

/// The ASCII lower case of a text.
pub open spec fn lower(s: Seq<char>) -> Seq<char> {
    s.map_values(|c: char| lower_char(c))
}

fn lower_one(c: char) -> (r: char)
    ensures
        r == lower_char(c),
{
    if 'A' <= c && c <= 'Z' {
        let code: u8 = c as u8;
        (code + 32) as char
    } else {
        c
    }
}

/// `s` with each ASCII upper-case letter lowered.
pub fn to_ascii_lowercase(s: &str) -> (r: String)
    ensures
        r@ == lower(s@),
{
    let mut out = String::new();
    for c in it: s.chars()
        invariant
            it.seq() == s@,
            out@ == lower(s@.take(it.index() as int)),
    {
        assert(s@.take(it.index() + 1) =~= s@.take(it.index() as int).push(c));
        out.push(lower_one(c));
        assert(out@ =~= lower(s@.take(it.index() + 1)));
    }
    assert(s@.take(s@.len() as int) =~= s@);
    out
}

// -- Optional texts ----------------------------------------------------------

/// The view of an optional text.
pub open spec fn opt_view(s: Option<String>) -> Option<Seq<char>> {
    match s {
        Some(t) => Some(t@),
        None => None,
    }
}

/// The view of an optional text.
pub open spec fn opt_str(s: Option<&str>) -> Option<Seq<char>> {
    match s {
        Some(t) => Some(t@),
        None => None,
    }
}

/// `r` is the text `t`.
pub open spec fn is_text(r: Option<String>, t: Option<Seq<char>>) -> bool {
    opt_view(r) == t
}

// -- Equality ---------------------------------------------------------------

/// True when the two texts are the same.
pub fn same_text(a: &str, b: &str) -> (r: bool)
    ensures
        r == (a@ == b@),
{
    a.to_owned() == b.to_owned()
}

/// True when the two texts differ at most in ASCII case.
pub fn eq_ignore_ascii_case(a: &str, b: &str) -> (r: bool)
    ensures
        r == (lower(a@) == lower(b@)),
{
    to_ascii_lowercase(a) == to_ascii_lowercase(b)
}

// -- Trimming ---------------------------------------------------------------

/// `s` without its leading white space.
pub open spec fn trimmed_start(s: Seq<char>) -> Seq<char>
    decreases s.len(),
{
    if s.len() > 0 && white_space(s[0]) {
        trimmed_start(s.drop_first())
    } else {
        s
    }
}

/// `s` without its trailing white space.
pub open spec fn trimmed_end(s: Seq<char>) -> Seq<char>
    decreases s.len(),
{
    if s.len() > 0 && white_space(s.last()) {
        trimmed_end(s.drop_last())
    } else {
        s
    }
}

/// `s` without leading and trailing white space.
pub open spec fn trimmed(s: Seq<char>) -> Seq<char> {
    trimmed_end(trimmed_start(s))
}

/// The characters of `s`.
pub fn chars_of(s: &str) -> (r: Vec<char>)
    ensures
        r@ == s@,
{
    let mut out: Vec<char> = Vec::new();
    for c in it: s.chars()
        invariant
            it.seq() == s@,
            out@ == s@.take(it.index() as int),
    {
        out.push(c);
    }
    assert(s@.take(s@.len() as int) =~= s@);
    out
}

/// The text made of `chars[from..to]`.
pub fn text_of(chars: &Vec<char>, from: usize, to: usize) -> (r: String)
    requires
        from <= to <= chars@.len(),
    ensures
        r@ == chars@.subrange(from as int, to as int),
{
    let mut out = String::new();
    let mut i: usize = from;
    while i < to
        invariant
            from <= i <= to <= chars@.len(),
            out@ == chars@.subrange(from as int, i as int),
        decreases to - i,
    {
        out.push(chars[i]);
        i += 1;
        assert(out@ =~= chars@.subrange(from as int, i as int));
    }
    out
}

fn start_of_text(chars: &Vec<char>) -> (i: usize)
    ensures
        i <= chars@.len(),
        trimmed_start(chars@) == chars@.skip(i as int),
{
    let mut i: usize = 0;
    assert(chars@.skip(0) =~= chars@);
    while i < chars.len() && is_white_space(chars[i])
        invariant
            i <= chars@.len(),
            trimmed_start(chars@) == trimmed_start(chars@.skip(i as int)),
        decreases chars@.len() - i,
    {
        assert(chars@.skip(i as int).drop_first() =~= chars@.skip(i + 1));
        i += 1;
    }
    i
}

fn end_of_text(chars: &Vec<char>, from: usize) -> (j: usize)
    requires
        from <= chars@.len(),
    ensures
        from <= j <= chars@.len(),
        trimmed_end(chars@.skip(from as int)) == chars@.subrange(from as int, j as int),
{
    let mut j: usize = chars.len();
    assert(chars@.skip(from as int) =~= chars@.subrange(from as int, j as int));
    while from < j && is_white_space(chars[j - 1])
        invariant
            from <= j <= chars@.len(),
            trimmed_end(chars@.skip(from as int)) == trimmed_end(
                chars@.subrange(from as int, j as int),
            ),
        decreases j,
    {
        assert(chars@.subrange(from as int, j as int).drop_last() =~= chars@.subrange(
            from as int,
            j - 1,
        ));
        j -= 1;
    }
    j
}

/// `s` without leading and trailing white space.
pub fn trim(s: &str) -> (r: String)
    ensures
        r@ == trimmed(s@),
{
    let chars = chars_of(s);
    let i = start_of_text(&chars);
    let j = end_of_text(&chars, i);
    text_of(&chars, i, j)
}

/// `s` without leading white space.
pub fn trim_start(s: &str) -> (r: String)
    ensures
        r@ == trimmed_start(s@),
{
    let chars = chars_of(s);
    let i = start_of_text(&chars);
    text_of(&chars, i, chars.len())
}

/// `s` without trailing white space.
pub fn trim_end(s: &str) -> (r: String)
    ensures
        r@ == trimmed_end(s@),
{
    let chars = chars_of(s);
    assert(chars@.skip(0) =~= chars@);
    let j = end_of_text(&chars, 0);
    text_of(&chars, 0, j)
}

/// `s` without the `c`s at its end.
pub open spec fn without_trailing(s: Seq<char>, c: char) -> Seq<char>
    decreases s.len(),
{
    if s.len() > 0 && s.last() == c {
        without_trailing(s.drop_last(), c)
    } else {
        s
    }
}

/// `s` without the `c`s at its end.
pub fn trim_end_char(s: &str, c: char) -> (r: String)
    ensures
        r@ == without_trailing(s@, c),
{
    let chars = chars_of(s);
    let mut j: usize = chars.len();
    assert(chars@.take(j as int) =~= chars@);
    while 0 < j && chars[j - 1] == c
        invariant
            j <= chars@.len(),
            without_trailing(chars@, c) == without_trailing(chars@.take(j as int), c),
        decreases j,
    {
        assert(chars@.take(j as int).drop_last() =~= chars@.take(j - 1));
        j -= 1;
    }
    let out = text_of(&chars, 0, j);
    assert(out@ =~= chars@.take(j as int));
    out
}

/// A text that neither begins nor ends with white space is its own trimming.
pub proof fn lemma_trimmed_noop(s: Seq<char>)
    requires
        s.len() > 0 ==> !white_space(s[0]) && !white_space(s.last()),
    ensures
        trimmed(s) == s,
        trimmed_start(s) == s,
        trimmed_end(s) == s,
{
}

proof fn lemma_trimmed_start(s: Seq<char>) -> (a: int)
    ensures
        0 <= a <= s.len(),
        trimmed_start(s) == s.skip(a),
        trimmed_start(s).len() > 0 ==> !white_space(trimmed_start(s)[0]),
        forall|i: int| 0 <= i < a ==> white_space(#[trigger] s[i]),
    decreases s.len(),
{
    if s.len() > 0 && white_space(s[0]) {
        let a = lemma_trimmed_start(s.drop_first());
        assert(s.drop_first().skip(a) =~= s.skip(a + 1));
        assert forall|i: int| 0 <= i < a + 1 implies white_space(#[trigger] s[i]) by {
            if i > 0 {
                assert(white_space(s.drop_first()[i - 1]));
            }
        }
        a + 1
    } else {
        assert(s.skip(0) =~= s);
        0
    }
}

proof fn lemma_trimmed_end(s: Seq<char>) -> (b: int)
    ensures
        0 <= b <= s.len(),
        trimmed_end(s) == s.take(b),
        trimmed_end(s).len() > 0 ==> !white_space(trimmed_end(s).last()),
        forall|i: int| b <= i < s.len() ==> white_space(#[trigger] s[i]),
    decreases s.len(),
{
    if s.len() > 0 && white_space(s.last()) {
        let b = lemma_trimmed_end(s.drop_last());
        assert(s.drop_last().take(b) =~= s.take(b));
        assert forall|i: int| b <= i < s.len() implies white_space(#[trigger] s[i]) by {
            if i < s.len() - 1 {
                assert(white_space(s.drop_last()[i]));
            }
        }
        b
    } else {
        assert(s.take(s.len() as int) =~= s);
        s.len() as int
    }
}

/// Trimming cuts a stretch out of the text: around it stands white space only,
/// and it begins and ends with something else. Returns its bounds.
pub proof fn lemma_trimmed(s: Seq<char>) -> (r: (int, int))
    ensures
        0 <= r.0 <= r.1 <= s.len(),
        trimmed(s) == s.subrange(r.0, r.1),
        trimmed(s).len() > 0 ==> !white_space(trimmed(s)[0]) && !white_space(trimmed(s).last()),
        forall|i: int| 0 <= i < r.0 ==> white_space(#[trigger] s[i]),
        forall|i: int| r.1 <= i < s.len() ==> white_space(#[trigger] s[i]),
{
    let a = lemma_trimmed_start(s);
    let t = trimmed_start(s);
    let b = lemma_trimmed_end(t);
    assert(t.take(b) =~= s.subrange(a, a + b));
    assert forall|i: int| a + b <= i < s.len() implies white_space(#[trigger] s[i]) by {
        assert(white_space(t[i - a]));
    }
    (a, a + b)
}

/// Trimming twice is trimming once.
pub proof fn trim_is_idempotent(s: Seq<char>)
    ensures
        trimmed(trimmed(s)) == trimmed(s),
{
    let _ = lemma_trimmed(s);
    lemma_trimmed_noop(trimmed(s));
}

// -- Searching --------------------------------------------------------------

/// `needle` occurs in `hay` at position `i`.
pub open spec fn occurs_at(hay: Seq<char>, needle: Seq<char>, i: int) -> bool {
    &&& 0 <= i
    &&& i + needle.len() <= hay.len()
    &&& hay.subrange(i, i + needle.len()) == needle
}

/// `needle` occurs somewhere in `hay`.
pub open spec fn has_text(hay: Seq<char>, needle: Seq<char>) -> bool {
    exists|i: int| #[trigger] occurs_at(hay, needle, i)
}

fn matches_at(hay: &Vec<char>, needle: &Vec<char>, at: usize) -> (r: bool)
    requires
        at + needle@.len() <= hay@.len(),
    ensures
        r == occurs_at(hay@, needle@, at as int),
{
    let len: usize = hay.len();
    let mut k: usize = 0;
    while k < needle.len()
        invariant
            len == hay@.len(),
            at + needle@.len() <= len,
            k <= needle@.len(),
            forall|j: int| 0 <= j < k ==> #[trigger] needle@[j] == hay@[at + j],
        decreases needle@.len() - k,
    {
        if hay[at + k] != needle[k] {
            assert(hay@.subrange(at as int, at + needle@.len())[k as int] == hay@[at + k]);
            return false;
        }
        k += 1;
    }
    assert(hay@.subrange(at as int, at + needle@.len()) =~= needle@);
    true
}

/// True when `needle` occurs in `hay`.
pub fn contains(hay: &str, needle: &str) -> (r: bool)
    ensures
        r == has_text(hay@, needle@),
{
    let h = chars_of(hay);
    let n = chars_of(needle);
    if h.len() < n.len() {
        return false;
    }
    let last: usize = h.len() - n.len();
    let mut i: usize = 0;
    while i <= last
        invariant
            h@ == hay@,
            n@ == needle@,
            last == h@.len() - n@.len(),
            i <= last + 1,
            forall|j: int| 0 <= j < i ==> !#[trigger] occurs_at(h@, n@, j),
        decreases last + 1 - i,
    {
        if matches_at(&h, &n, i) {
            return true;
        }
        if i == last {
            return false;
        }
        i += 1;
    }
    false
}

/// True when `s` begins with `prefix`.
pub fn starts_with(s: &str, prefix: &str) -> (r: bool)
    ensures
        r == prefix@.is_prefix_of(s@),
{
    strip_prefix(s, prefix).is_some()
}

/// What follows `prefix` in `s`, if `s` begins with it.
pub fn strip_prefix(s: &str, prefix: &str) -> (r: Option<String>)
    ensures
        r is Some <==> prefix@.is_prefix_of(s@),
        r matches Some(rest) ==> rest@ == s@.skip(prefix@.len() as int),
{
    let h = chars_of(s);
    let n = chars_of(prefix);
    if h.len() < n.len() {
        return None;
    }
    if matches_at(&h, &n, 0) {
        Some(text_of(&h, n.len(), h.len()))
    } else {
        None
    }
}

/// True when `s` ends with `suffix`.
pub fn ends_with(s: &str, suffix: &str) -> (r: bool)
    ensures
        r == suffix@.is_suffix_of(s@),
{
    let h = chars_of(s);
    let n = chars_of(suffix);
    if h.len() < n.len() {
        return false;
    }
    matches_at(&h, &n, h.len() - n.len())
}

// -- Numbers ----------------------------------------------------------------

/// The character of one digit, lower case above nine.
pub open spec fn digit(d: nat) -> char {
    if d < 10 {
        ('0' as u32 + d) as char
    } else {
        ('a' as u32 + (d - 10)) as char
    }
}

/// `n` written in `base`, without leading zeros.
pub open spec fn numeral(n: nat, base: nat) -> Seq<char>
    decreases n,
{
    if base < 2 || n < base {
        seq![digit(n)]
    } else {
        proof {
            assert(n / base < n) by (nonlinear_arith)
                requires
                    2 <= base <= n,
            ;
        }
        numeral(n / base, base).push(digit(n % base))
    }
}

/// `n` written in decimal.
pub open spec fn decimal(n: nat) -> Seq<char> {
    numeral(n, 10)
}

fn digit_char(d: u8) -> (r: char)
    requires
        d < 16,
    ensures
        r == digit(d as nat),
{
    if d < 10 {
        (48 + d) as char
    } else {
        (87 + d) as char
    }
}

fn push_numeral(out: &mut String, n: u128, base: u128)
    requires
        2 <= base <= 16,
    ensures
        final(out)@ == old(out)@ + numeral(n as nat, base as nat),
    decreases n,
{
    if n < base {
        out.push(digit_char(n as u8));
        assert(out@ =~= old(out)@ + numeral(n as nat, base as nat));
    } else {
        assert(n / base < n) by (nonlinear_arith)
            requires
                2 <= base <= n,
        ;
        assert(0 <= n % base < base) by (nonlinear_arith)
            requires
                2 <= base <= n,
        ;
        push_numeral(out, n / base, base);
        out.push(digit_char((n % base) as u8));
        assert(out@ =~= old(out)@ + numeral(n as nat, base as nat));
    }
}

/// `n` in decimal.
pub fn to_decimal(n: u64) -> (r: String)
    ensures
        r@ == decimal(n as nat),
{
    let mut out = String::new();
    push_numeral(&mut out, n as u128, 10);
    assert(out@ =~= decimal(n as nat));
    out
}

/// `n` in lower-case hexadecimal.
pub fn to_hex(n: u128) -> (r: String)
    ensures
        r@ == numeral(n as nat, 16),
{
    let mut out = String::new();
    push_numeral(&mut out, n, 16);
    assert(out@ =~= numeral(n as nat, 16));
    out
}

/// Two numbers with the same decimal writing are the same.
pub proof fn lemma_decimal_injective(a: nat, b: nat)
    requires
        decimal(a) == decimal(b),
    ensures
        a == b,
    decreases a,
{
    let da = decimal(a);
    let db = decimal(b);
    reveal_with_fuel(numeral, 2);
    if a < 10 && b < 10 {
        assert(da[0] == digit(a) && db[0] == digit(b));
    } else if a >= 10 && b >= 10 {
        assert(da.drop_last() =~= decimal(a / 10));
        assert(db.drop_last() =~= decimal(b / 10));
        lemma_decimal_injective(a / 10, b / 10);
        assert(da.last() == digit(a % 10) && db.last() == digit(b % 10));
    } else {
        lemma_numeral_not_empty(a / 10, 10);
        lemma_numeral_not_empty(b / 10, 10);
        assert(da.len() != db.len());
    }
}

/// A number's writing has at least one digit.
pub proof fn lemma_numeral_not_empty(n: nat, base: nat)
    ensures
        numeral(n, base).len() > 0,
{
}

/// A decimal writing holds digits only, so lower case leaves it alone.
pub proof fn lemma_decimal_lower(n: nat)
    ensures
        lower(decimal(n)) == decimal(n),
    decreases n,
{
    reveal_with_fuel(numeral, 2);
    if n >= 10 {
        lemma_decimal_lower(n / 10);
        assert(decimal(n) =~= decimal(n / 10).push(digit(n % 10)));
        let d = decimal(n / 10);
        assert forall|i: int| 0 <= i < decimal(n).len() implies lower(decimal(n))[i] == decimal(n)[i] by {
            if i < d.len() {
                assert(lower(d)[i] == d[i]);
            }
        }
    }
    assert(lower(decimal(n)) =~= decimal(n));
}

/// Lower case goes piece by piece.
pub proof fn lemma_lower_add(a: Seq<char>, b: Seq<char>)
    ensures
        lower(a + b) == lower(a) + lower(b),
{
    assert(lower(a + b) =~= lower(a) + lower(b));
}

// -- Splitting --------------------------------------------------------------

/// `i` is the first place of `c` in `s`.
pub open spec fn first_at(s: Seq<char>, c: char, i: int) -> bool {
    &&& 0 <= i < s.len()
    &&& s[i] == c
    &&& forall|j: int| 0 <= j < i ==> s[j] != c
}

/// The place of the first `c` in `s`, or the length of `s` when there is none.
pub open spec fn position(s: Seq<char>, c: char) -> int
    decreases s.len(),
{
    if s.len() == 0 || s[0] == c {
        0
    } else {
        1 + position(s.drop_first(), c)
    }
}

/// The position of a character is the first place where it stands.
pub proof fn lemma_position(s: Seq<char>, c: char)
    ensures
        0 <= position(s, c) <= s.len(),
        position(s, c) < s.len() ==> first_at(s, c, position(s, c)),
        position(s, c) == s.len() ==> !s.contains(c),
    decreases s.len(),
{
    if s.len() > 0 && s[0] != c {
        let t = s.drop_first();
        lemma_position(t, c);
        if position(t, c) < t.len() {
            assert forall|j: int| 0 <= j < position(s, c) implies s[j] != c by {
                if j > 0 {
                    assert(t[j - 1] == s[j]);
                }
            }
        } else if s.contains(c) {
            let j = choose|j: int| 0 <= j < s.len() && s[j] == c;
            assert(t[j - 1] == c);
        }
    }
}

/// What stands before and behind the first `c`, if there is one.
pub fn split_once(s: &str, c: char) -> (r: Option<(String, String)>)
    ensures
        match r {
            Some((head, tail)) => {
                &&& s@.contains(c)
                &&& head@ == s@.take(position(s@, c))
                &&& tail@ == s@.skip(position(s@, c) + 1)
            },
            None => !s@.contains(c),
        },
{
    proof {
        lemma_position(s@, c);
    }
    let chars = chars_of(s);
    let mut i: usize = 0;
    while i < chars.len()
        invariant
            chars@ == s@,
            i <= chars@.len(),
            0 <= position(s@, c) <= s@.len(),
            position(s@, c) < s@.len() ==> first_at(s@, c, position(s@, c)),
            position(s@, c) == s@.len() ==> !s@.contains(c),
            forall|j: int| 0 <= j < i ==> chars@[j] != c,
        decreases chars@.len() - i,
    {
        if chars[i] == c {
            let head = text_of(&chars, 0, i);
            let tail = text_of(&chars, i + 1, chars.len());
            proof {
                assert(s@[i as int] == c);
                assert(position(s@, c) == i) by {
                    if position(s@, c) < s@.len() {
                        assert(first_at(s@, c, position(s@, c)));
                    }
                }
                assert(head@ =~= s@.take(i as int));
                assert(tail@ =~= s@.skip(i + 1));
            }
            return Some((head, tail));
        }
        i += 1;
    }
    None
}

/// `s` holds printable ASCII only, and neither quotes nor a backslash.
pub open spec fn plain(s: Seq<char>) -> bool {
    forall|i: int|
        0 <= i < s.len() ==> ' ' <= #[trigger] s[i] && s[i] <= '~' && s[i] != '"' && s[i] != '\''
            && s[i] != '\\'
}

/// What the `Debug` form of a text is: the text in double quotes, with some of
/// its characters escaped.
pub uninterp spec fn quoted(s: Seq<char>) -> Seq<char>;

/// The `Debug` form of a text. A plain text stands in it as it is.
pub open spec fn debug_form(s: Seq<char>) -> Seq<char> {
    if plain(s) {
        seq!['"'] + s + seq!['"']
    } else {
        quoted(s)
    }
}

/// `format!` with `{:?}` on a text: the text in double quotes. Nothing in a plain
/// text is escaped. Which other characters are, and how, is left unsaid.
#[verifier::external_body]
pub(crate) fn debug_text(s: &str) -> (r: String)
    ensures
        r@ == quoted(s@),
        r@ == debug_form(s@),
{
    format!("{s:?}")
}

// -- Reading numbers --------------------------------------------------------

/// `c` is a decimal digit.
pub open spec fn is_digit(c: char) -> bool {
    '0' <= c && c <= '9'
}

/// The number that decimal digits stand for.
pub open spec fn digits_value(s: Seq<char>) -> nat
    decreases s.len(),
{
    if s.len() == 0 {
        0
    } else {
        digits_value(s.drop_last()) * 10 + (s.last() as nat - '0' as nat) as nat
    }
}

/// `s` without a leading plus sign.
pub open spec fn unsigned_part(s: Seq<char>) -> Seq<char> {
    if s.len() > 0 && s[0] == '+' {
        s.skip(1)
    } else {
        s
    }
}

/// The number that `s` writes: decimal digits, at least one, behind an optional
/// plus sign.
pub open spec fn number_in(s: Seq<char>) -> Option<nat> {
    let digits = unsigned_part(s);
    if digits.len() > 0 && forall|i: int| 0 <= i < digits.len() ==> is_digit(#[trigger] digits[i]) {
        Some(digits_value(digits))
    } else {
        None
    }
}

/// The number that `s` writes, if it writes one that fits.
pub open spec fn usize_in(s: Seq<char>) -> Option<nat> {
    match number_in(s) {
        Some(n) => if n <= usize::MAX {
            Some(n)
        } else {
            None
        },
        None => None,
    }
}

proof fn lemma_digits_value_grows(s: Seq<char>, i: int)
    requires
        0 <= i <= s.len(),
        forall|j: int| 0 <= j < s.len() ==> is_digit(#[trigger] s[j]),
    ensures
        digits_value(s.take(i)) <= digits_value(s),
    decreases s.len() - i,
{
    if i == s.len() {
        assert(s.take(i) =~= s);
    } else {
        lemma_digits_value_grows(s, i + 1);
        assert(s.take(i + 1).drop_last() =~= s.take(i));
        assert(s.take(i + 1).last() == s[i]);
    }
}

/// The number that `s` writes, if it writes one that fits.
pub fn parse_usize(s: &str) -> (r: Option<usize>)
    ensures
        match r {
            Some(n) => usize_in(s@) == Some(n as nat),
            None => usize_in(s@) is None,
        },
{
    let chars = chars_of(s);
    let start: usize = if chars.len() > 0 && chars[0] == '+' {
        1
    } else {
        0
    };
    let ghost digits = unsigned_part(s@);
    assert(digits =~= chars@.skip(start as int));
    if start == chars.len() {
        return None;
    }
    let mut value: usize = 0;
    let mut i: usize = start;
    assert(digits.take(0) =~= Seq::<char>::empty());
    while i < chars.len()
        invariant
            start <= i <= chars@.len(),
            start < chars@.len(),
            digits == chars@.skip(start as int),
            digits == unsigned_part(s@),
            forall|j: int| 0 <= j < i - start ==> is_digit(#[trigger] digits[j]),
            value == digits_value(digits.take(i - start)),
        decreases chars@.len() - i,
    {
        let c = chars[i];
        assert(digits[i - start] == c);
        if c < '0' || c > '9' {
            assert(!is_digit(digits[i - start]));
            return None;
        }
        let d: usize = (c as u8 - 48) as usize;
        proof {
            let k = i - start;
            assert(digits.take(k + 1).drop_last() =~= digits.take(k));
            assert(digits.take(k + 1).last() == c);
            if number_in(s@) is Some {
                lemma_digits_value_grows(digits, k + 1);
            }
        }
        match value.checked_mul(10) {
            Some(tens) => match tens.checked_add(d) {
                Some(next) => {
                    value = next;
                },
                None => return None,
            },
            None => return None,
        }
        i += 1;
    }
    assert(digits.take(chars@.len() - start) =~= digits);
    Some(value)
}

/// The decimal writing of a number reads as that number.
pub proof fn decimal_reads_back(n: nat)
    ensures
        number_in(decimal(n)) == Some(n),
        forall|i: int| 0 <= i < decimal(n).len() ==> is_digit(#[trigger] decimal(n)[i]),
    decreases n,
{
    reveal_with_fuel(numeral, 2);
    let d = decimal(n);
    if n < 10 {
        assert(d.drop_last() =~= Seq::<char>::empty());
        assert(digits_value(Seq::<char>::empty()) == 0);
        assert(d.last() == digit(n));
    } else {
        decimal_reads_back(n / 10);
        let head = decimal(n / 10);
        assert(d.drop_last() =~= head);
        assert(d.last() == digit(n % 10));
        assert(unsigned_part(head) == head) by {
            assert(is_digit(head[0]));
        }
        assert forall|i: int| 0 <= i < d.len() implies is_digit(#[trigger] d[i]) by {
            if i < head.len() {
                assert(d[i] == head[i]);
            }
        }
    }
    assert(is_digit(d[0]));
    assert(unsigned_part(d) == d);
}

// -- Laws -------------------------------------------------------------------

/// The white space is that of Unicode, by its code points.
pub proof fn white_space_by_code_point(c: char)
    ensures
        white_space(c) <==> {
            let n = c as u32;
            9 <= n <= 13 || n == 32 || n == 0x85 || n == 0xa0 || n == 0x1680 || 0x2000 <= n
                <= 0x200a || n == 0x2028 || n == 0x2029 || n == 0x202f || n == 0x205f || n == 0x3000
        },
{
}

/// The control characters are those below the space and those from 127 to 159.
pub proof fn controls_by_code_point(c: char)
    ensures
        control(c) <==> (c as u32) < 32 || 127 <= (c as u32) < 160,
{
}

/// Lower case changes the ASCII capitals, each to the letter 32 places on, and
/// nothing else.
pub proof fn lower_changes_capitals_only(s: Seq<char>, i: int)
    requires
        0 <= i < s.len(),
    ensures
        lower(s).len() == s.len(),
        65 <= (s[i] as u32) <= 90 ==> lower(s)[i] as u32 == s[i] as u32 + 32,
        !(65 <= (s[i] as u32) <= 90) ==> lower(s)[i] == s[i],
{
}

/// Lower case twice is lower case once, and nothing of nothing.
pub proof fn lower_is_idempotent(s: Seq<char>)
    ensures
        lower(lower(s)) == lower(s),
        lower(s).len() == s.len(),
{
    assert(lower(lower(s)) =~= lower(s));
}

/// White space around a text comes off, and nothing of the text does: whatever
/// is put around a text that has none at its ends, trimming gives that text.
pub proof fn trimming_takes_the_white_space_around(
    left: Seq<char>,
    s: Seq<char>,
    right: Seq<char>,
)
    requires
        forall|i: int| 0 <= i < left.len() ==> white_space(#[trigger] left[i]),
        forall|i: int| 0 <= i < right.len() ==> white_space(#[trigger] right[i]),
        s.len() > 0 ==> !white_space(s[0]) && !white_space(s.last()),
    ensures
        trimmed(left + s + right) == s,
        s.len() > 0 ==> trimmed_start(left + s + right) == s + right,
        s.len() > 0 ==> trimmed_end(left + s + right) == left + s,
{
    let all = left + s + right;
    let (a, b) = lemma_trimmed(all);
    let n = left.len() as int;
    let m = n + s.len();
    if s.len() == 0 {
        if a < b {
            assert(all.subrange(a, b)[0] == all[a]);
            if a < n {
                assert(white_space(left[a]));
            } else {
                assert(white_space(right[a - n]));
            }
        }
        assert(trimmed(all) =~= s);
    } else {
        assert(all[n] == s[0]);
        assert(all[m - 1] == s.last());
        assert(a <= n && m <= b);
        assert(all.subrange(a, b)[0] == all[a]);
        assert(all.subrange(a, b)[b - a - 1] == all[b - 1]);
        if a < n {
            assert(white_space(left[a]));
        }
        if m < b {
            assert(white_space(right[b - 1 - m]));
        }
        assert(all.subrange(n, m) =~= s);
        let c = lemma_trimmed_start(all);
        assert(c <= n);
        assert(all.skip(c)[0] == all[c]);
        if c < n {
            assert(white_space(left[c]));
        }
        assert(all.skip(n) =~= s + right);
        let d = lemma_trimmed_end(all);
        assert(m <= d);
        assert(all.take(d)[d - 1] == all[d - 1]);
        if m < d {
            assert(white_space(right[d - 1 - m]));
        }
        assert(all.take(m) =~= left + s);
    }
}

/// A text is blank if and only if it holds white space only.
pub proof fn blank_is_white_space_only(s: Seq<char>)
    ensures
        trimmed(s).len() == 0 <==> forall|i: int| 0 <= i < s.len() ==> white_space(#[trigger] s[i]),
{
    let (a, b) = lemma_trimmed(s);
    if trimmed(s).len() > 0 {
        assert(s.subrange(a, b)[0] == s[a]);
        assert(!white_space(s[a]));
    }
}

/// A text occurs in another if and only if the other is made of something, the
/// text, and something.
pub proof fn contained_text_stands_between(hay: Seq<char>, needle: Seq<char>)
    ensures
        has_text(hay, needle) <==> exists|before: Seq<char>, after: Seq<char>|
            hay == #[trigger] (before + needle + after),
        has_text(needle, needle),
{
    if has_text(hay, needle) {
        let i = choose|i: int| #[trigger] occurs_at(hay, needle, i);
        let before = hay.take(i);
        let after = hay.skip(i + needle.len());
        assert(before + needle + after =~= hay) by {
            assert forall|k: int| 0 <= k < hay.len() implies hay[k] == (before + needle + after)[k] by {
                if i <= k < i + needle.len() {
                    assert(hay.subrange(i, i + needle.len())[k - i] == hay[k]);
                }
            }
        }
    }
    if exists|before: Seq<char>, after: Seq<char>| hay == #[trigger] (before + needle + after) {
        let (before, after) = choose|before: Seq<char>, after: Seq<char>|
            hay == #[trigger] (before + needle + after);
        lemma_text_between(before, needle, after);
    }
    lemma_text_between(Seq::empty(), needle, Seq::empty());
    assert(Seq::<char>::empty() + needle + Seq::<char>::empty() =~= needle);
}

/// What stands between two texts occurs in the whole.
pub proof fn lemma_text_between(before: Seq<char>, needle: Seq<char>, after: Seq<char>)
    ensures
        has_text(before + needle + after, needle),
{
    let hay = before + needle + after;
    let i = before.len() as int;
    assert(hay.subrange(i, i + needle.len()) =~= needle);
    assert(occurs_at(hay, needle, i));
}

/// What occurs in a part occurs in the whole.
pub proof fn lemma_text_within(before: Seq<char>, part: Seq<char>, after: Seq<char>, needle: Seq<char>)
    requires
        has_text(part, needle),
    ensures
        has_text(before + part + after, needle),
{
    let i = choose|i: int| #[trigger] occurs_at(part, needle, i);
    let hay = before + part + after;
    let k = before.len() + i;
    assert(hay.subrange(k, k + needle.len()) =~= part.subrange(i, i + needle.len()));
    assert(occurs_at(hay, needle, k));
}

/// The first place of a character is behind everything that does not hold it.
pub proof fn first_place_is_found(head: Seq<char>, c: char, tail: Seq<char>)
    requires
        !head.contains(c),
    ensures
        position(head + seq![c] + tail, c) == head.len(),
    decreases head.len(),
{
    let s = head + seq![c] + tail;
    if head.len() > 0 {
        assert(head.contains(head[0]));
        assert(s[0] == head[0]);
        let rest = head.drop_first();
        assert(!rest.contains(c)) by {
            if rest.contains(c) {
                let i = choose|i: int| 0 <= i < rest.len() && rest[i] == c;
                assert(head[i + 1] == c);
            }
        }
        assert(s.drop_first() =~= rest + seq![c] + tail);
        first_place_is_found(rest, c, tail);
    }
}

/// The writing of a number ends with its last digit, behind the writing of the
/// rest; a single digit stands for itself.
pub proof fn digits_are_written_in_order(q: nat, d: nat)
    requires
        d < 10,
    ensures
        decimal(d) == seq![('0' as u32 + d) as char],
        q > 0 ==> decimal(q * 10 + d) == decimal(q).push(('0' as u32 + d) as char),
{
    let n = q * 10 + d;
    if q > 0 {
        assert(n / 10 == q && n % 10 == d);
    }
}

/// The same in hexadecimal, with the letters a to f above nine.
pub proof fn hex_digits_are_written_in_order(q: nat, d: nat)
    requires
        d < 16,
    ensures
        d < 10 ==> numeral(d, 16) == seq![('0' as u32 + d) as char],
        d >= 10 ==> numeral(d, 16) == seq![('a' as u32 + (d - 10)) as char],
        q > 0 ==> numeral(q * 16 + d, 16) == numeral(q, 16) + numeral(d, 16),
{
    let n = q * 16 + d;
    if q > 0 {
        assert(n / 16 == q && n % 16 == d);
        assert(numeral(n, 16) =~= numeral(q, 16) + numeral(d, 16));
    }
}

/// A number that fits is read from its writing, with or without a plus sign;
/// one that does not fit is not.
pub proof fn numbers_are_read(n: nat)
    ensures
        n <= usize::MAX ==> usize_in(decimal(n)) == Some(n) && usize_in(seq!['+'] + decimal(n)) == Some(
            n,
        ),
        n > usize::MAX ==> usize_in(decimal(n)) is None,
        usize_in(Seq::empty()) is None,
{
    decimal_reads_back(n);
    lemma_numeral_not_empty(n, 10);
    assert((seq!['+'] + decimal(n)).skip(1) =~= decimal(n));
    assert(is_digit(decimal(n)[0]));
    assert(unsigned_part(decimal(n)) == decimal(n));
}

/// What holds anything but digits behind its sign is no number.
pub proof fn only_digits_are_numbers(s: Seq<char>, i: int)
    requires
        0 <= i < s.len(),
        !('0' <= s[i] && s[i] <= '9'),
        i > 0 || s[0] != '+',
    ensures
        usize_in(s) is None,
{
    let digits = unsigned_part(s);
    if s[0] == '+' {
        assert(digits[i - 1] == s[i]);
    } else {
        assert(digits[i] == s[i]);
    }
}

/// Cutting a character off the end cuts off all of it there, and nothing else.
pub proof fn trailing_characters_come_off(s: Seq<char>, tail: Seq<char>, c: char)
    requires
        s.len() > 0 ==> s.last() != c,
        forall|i: int| 0 <= i < tail.len() ==> #[trigger] tail[i] == c,
    ensures
        without_trailing(s + tail, c) == s,
    decreases tail.len(),
{
    if tail.len() == 0 {
        assert(s + tail =~= s);
    } else {
        let rest = tail.drop_last();
        assert forall|i: int| 0 <= i < rest.len() implies #[trigger] rest[i] == c by {
            assert(tail[i] == c);
        }
        assert((s + tail).drop_last() =~= s + rest);
        assert(tail[tail.len() - 1] == c);
        assert((s + tail).last() == c);
        trailing_characters_come_off(s, rest, c);
    }
}

/// White space at the beginning comes off; what begins with something else stays
/// whole.
pub proof fn lemma_start_after_white_space(left: Seq<char>, s: Seq<char>)
    requires
        forall|i: int| 0 <= i < left.len() ==> white_space(#[trigger] left[i]),
        s.len() > 0 ==> !white_space(s[0]),
    ensures
        trimmed_start(left + s) == s,
    decreases left.len(),
{
    if left.len() == 0 {
        assert(left + s =~= s);
    } else {
        let rest = left.drop_first();
        assert forall|i: int| 0 <= i < rest.len() implies white_space(#[trigger] rest[i]) by {
            assert(rest[i] == left[i + 1]);
        }
        assert((left + s).drop_first() =~= rest + s);
        assert(white_space(left[0]));
        lemma_start_after_white_space(rest, s);
    }
}

/// What comes off at the beginning is white space. Returns it.
pub proof fn lemma_start_is_cut_off(s: Seq<char>) -> (left: Seq<char>)
    ensures
        s == left + trimmed_start(s),
        forall|i: int| 0 <= i < left.len() ==> white_space(#[trigger] left[i]),
        trimmed_start(s).len() > 0 ==> !white_space(trimmed_start(s)[0]),
{
    let a = lemma_trimmed_start(s);
    assert(s =~= s.take(a) + s.skip(a));
    s.take(a)
}

/// What stands in a part of a text stands in the text.
pub proof fn lemma_text_in_text(whole: Seq<char>, part: Seq<char>, needle: Seq<char>)
    requires
        has_text(whole, part),
        has_text(part, needle),
    ensures
        has_text(whole, needle),
{
    contained_text_stands_between(whole, part);
    let (before, after) = choose|before: Seq<char>, after: Seq<char>|
        whole == #[trigger] (before + part + after);
    lemma_text_within(before, part, after, needle);
}

/// The ASCII letters and digits are the ten digits and twice twenty-six letters,
/// told by their code points.
pub proof fn alphanumerics_by_code_point(c: char)
    ensures
        ascii_alphanumeric(c) <==> 48 <= c as u32 <= 57 || 65 <= c as u32 <= 90 || 97 <= c as u32
            <= 122,
{
}

}
