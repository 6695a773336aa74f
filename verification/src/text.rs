//! Character-level helpers shared by the servers: decimal rendering of
//! integers, ASCII case folding, whitespace trimming and string building.

use vstd::prelude::*;

verus! {

/// The characters of `s`, in order.
pub(crate) fn chars_of(s: &str) -> (r: Vec<char>)
    ensures
        r@ == s@,
{
    broadcast use vstd::string::axiom_spec_iter;
    let mut v: Vec<char> = Vec::new();
    for c in it: s.chars()
        invariant
            it.seq() == s@,
            v@ == s@.take(it.index() as int),
    {
        v.push(c);
        assert(s@.take(it.index() + 1) =~= s@.take(it.index() as int).push(c));
    }
    v
}

/// A `String` made of exactly the characters of `v`.
///
/// Trusted: wraps std's `FromIterator<&char> for String`; the contract claims
/// that the string's characters are those of `v`, in order.
#[verifier::external_body]
pub(crate) fn string_from_chars(v: &[char]) -> (r: String)
    ensures
        r@ == v@,
{
    v.iter().collect()
}

/// What std's `Debug` formatting of a string slice gives: the text in double
/// quotes, with quotes, backslashes and unprintable characters escaped.
pub uninterp spec fn str_debug(s: Seq<char>) -> Seq<char>;

/// The `Debug` rendering of `s`.
///
/// Trusted: wraps std's `<str as Debug>::fmt` through `format!("{:?}")`; the
/// contract claims only that the result depends on the characters of `s`
/// alone (it is `str_debug(s@)`); the escaping rules are not stated.
#[verifier::external_body]
pub(crate) fn debug_quoted(s: &str) -> (r: String)
    ensures
        r@ == str_debug(s@),
{
    format!("{:?}", s)
}

/// Appends the characters of `s` to `v`.
pub(crate) fn push_str(v: &mut Vec<char>, s: &str)
    ensures
        final(v)@ == old(v)@ + s@,
{
    let cs = chars_of(s);
    push_chars(v, &cs);
}

/// Appends the characters of `cs` to `v`.
pub(crate) fn push_chars(v: &mut Vec<char>, cs: &Vec<char>)
    ensures
        final(v)@ == old(v)@ + cs@,
{
    let ghost start = v@;
    let mut i: usize = 0;
    while i < cs.len()
        invariant
            i <= cs.len(),
            v@ == start + cs@.subrange(0, i as int),
        decreases cs.len() - i,
    {
        v.push(cs[i]);
        i = i + 1;
        assert(cs@.subrange(0, i as int) == cs@.subrange(0, i - 1).push(cs@[i - 1]));
    }
    assert(cs@.subrange(0, cs@.len() as int) == cs@);
}

/// Whether the characters in `a` are exactly those of `b`.
pub fn chars_equal(a: &Vec<char>, b: &str) -> (r: bool)
    ensures
        r == (a@ == b@),
{
    let bs = chars_of(b);
    if a.len() != bs.len() {
        return false;
    }
    let mut i: usize = 0;
    while i < a.len()
        invariant
            a@.len() == bs@.len(),
            bs@ == b@,
            i <= a.len(),
            forall|j: int| 0 <= j < i ==> a@[j] == bs@[j],
        decreases a.len() - i,
    {
        if a[i] != bs[i] {
            return false;
        }
        i = i + 1;
    }
    assert(a@ =~= bs@);
    true
}

/// ASCII lower-casing of one character: 'A' to 'Z' become 'a' to 'z', every
/// other character is kept.
pub open spec fn ascii_lower(c: char) -> char {
    if 'A' <= c && c <= 'Z' {
        (((c as u8) + 32) as u8) as char
    } else {
        c
    }
}

/// ASCII lower-casing of a text, character by character.
pub open spec fn ascii_lowercase(s: Seq<char>) -> Seq<char> {
    s.map_values(|c: char| ascii_lower(c))
}

/// The text with 'A' to 'Z' replaced by 'a' to 'z'.
pub fn to_ascii_lowercase(s: &str) -> (r: Vec<char>)
    ensures
        r@ == ascii_lowercase(s@),
{
    let cs = chars_of(s);
    let mut out: Vec<char> = Vec::new();
    let mut i: usize = 0;
    while i < cs.len()
        invariant
            cs@ == s@,
            i <= cs.len(),
            out@ == ascii_lowercase(cs@.subrange(0, i as int)),
        decreases cs.len() - i,
    {
        let c = cs[i];
        let l = if 'A' <= c && c <= 'Z' {
            ((c as u8) + 32) as char
        } else {
            c
        };
        out.push(l);
        i = i + 1;
        assert(ascii_lowercase(cs@.subrange(0, i as int)) =~= ascii_lowercase(
            cs@.subrange(0, i - 1),
        ).push(ascii_lower(cs@[i - 1])));
    }
    assert(cs@.subrange(0, cs@.len() as int) =~= cs@);
    out
}

/// The characters with the Unicode `White_Space` property, which std's
/// `char::is_whitespace` tests.
pub open spec fn is_white_space(c: char) -> bool {
    let u = c as u32;
    (0x9 <= u && u <= 0xd) || u == 0x20 || u == 0x85 || u == 0xa0 || u == 0x1680
        || (0x2000 <= u && u <= 0x200a) || u == 0x2028 || u == 0x2029 || u == 0x202f
        || u == 0x205f || u == 0x3000
}

/// `s` without its leading characters that satisfy `p`.
pub open spec fn strip_start(s: Seq<char>, p: spec_fn(char) -> bool) -> Seq<char>
    decreases s.len(),
{
    if s.len() > 0 && p(s[0]) {
        strip_start(s.drop_first(), p)
    } else {
        s
    }
}

/// `s` without its trailing characters that satisfy `p`.
pub open spec fn strip_end(s: Seq<char>, p: spec_fn(char) -> bool) -> Seq<char>
    decreases s.len(),
{
    if s.len() > 0 && p(s.last()) {
        strip_end(s.drop_last(), p)
    } else {
        s
    }
}

/// `s` without leading and trailing white space, as std's `str::trim` gives it.
pub open spec fn trim(s: Seq<char>) -> Seq<char> {
    strip_end(strip_start(s, |c: char| is_white_space(c)), |c: char| is_white_space(c))
}

/// Dropping a prefix made of characters that satisfy `p` does not change
/// what `strip_start` leaves.
pub proof fn lemma_strip_start_skip(s: Seq<char>, p: spec_fn(char) -> bool, i: int)
    requires
        0 <= i <= s.len(),
        forall|j: int| 0 <= j < i ==> p(#[trigger] s[j]),
    ensures
        strip_start(s, p) == strip_start(s.subrange(i, s.len() as int), p),
    decreases i,
{
    if i == 0 {
        assert(s.subrange(0, s.len() as int) =~= s);
    } else {
        assert(p(s[0]));
        let t = s.drop_first();
        assert forall|j: int| 0 <= j < i - 1 implies p(#[trigger] t[j]) by {
            assert(t[j] == s[j + 1]);
        }
        lemma_strip_start_skip(t, p, i - 1);
        assert(t.subrange(i - 1, t.len() as int) =~= s.subrange(i, s.len() as int));
    }
}

/// Dropping a suffix made of characters that satisfy `p` does not change
/// what `strip_end` leaves.
proof fn lemma_strip_end_take(s: Seq<char>, p: spec_fn(char) -> bool, k: int)
    requires
        0 <= k <= s.len(),
        forall|j: int| k <= j < s.len() ==> p(#[trigger] s[j]),
    ensures
        strip_end(s, p) == strip_end(s.subrange(0, k), p),
    decreases s.len() - k,
{
    if k == s.len() {
        assert(s.subrange(0, k) =~= s);
    } else {
        assert(p(s.last()));
        let t = s.drop_last();
        lemma_strip_end_take(t, p, k);
        assert(t.subrange(0, k) =~= s.subrange(0, k));
    }
}

/// The index of the first character of `cs` at or after `from` that is not
/// white space, or the length when there is none.
fn skip_white_space(cs: &Vec<char>, from: usize) -> (r: usize)
    requires
        from <= cs.len(),
    ensures
        from <= r <= cs.len(),
        forall|j: int| from <= j < r ==> is_white_space(#[trigger] cs@[j]),
        r < cs.len() ==> !is_white_space(cs@[r as int]),
{
    let mut i = from;
    while i < cs.len() && is_white_space_char(cs[i])
        invariant
            from <= i <= cs.len(),
            forall|j: int| from <= j < i ==> is_white_space(#[trigger] cs@[j]),
        decreases cs.len() - i,
    {
        i = i + 1;
    }
    i
}

/// Whether `c` has the Unicode `White_Space` property.
pub fn is_white_space_char(c: char) -> (r: bool)
    ensures
        r == is_white_space(c),
{
    let u = c as u32;
    (0x9 <= u && u <= 0xd) || u == 0x20 || u == 0x85 || u == 0xa0 || u == 0x1680
        || (0x2000 <= u && u <= 0x200a) || u == 0x2028 || u == 0x2029 || u == 0x202f
        || u == 0x205f || u == 0x3000
}

/// `s` without leading and trailing white space.
pub fn trim_chars(s: &str) -> (r: Vec<char>)
    ensures
        r@ == trim(s@),
{
    let cs = chars_of(s);
    let a = skip_white_space(&cs, 0);
    let ghost ws = |c: char| is_white_space(c);
    proof {
        lemma_strip_start_skip(cs@, ws, a as int);
    }
    let mut b = cs.len();
    while b > a && is_white_space_char(cs[b - 1])
        invariant
            a <= b <= cs.len(),
            forall|j: int| b <= j < cs.len() ==> is_white_space(#[trigger] cs@[j]),
        decreases b,
    {
        b = b - 1;
    }
    let mut out: Vec<char> = Vec::new();
    let mut i = a;
    while i < b
        invariant
            a <= i <= b,
            b <= cs.len(),
            out@ == cs@.subrange(a as int, i as int),
        decreases b - i,
    {
        out.push(cs[i]);
        i = i + 1;
        assert(cs@.subrange(a as int, i as int) =~= cs@.subrange(a as int, i - 1).push(cs@[i - 1]));
    }
    proof {
        let rest = cs@.subrange(a as int, cs@.len() as int);
        // what strip_start leaves starts with a character that is not white space
        if a < cs.len() {
            assert(rest[0] == cs@[a as int]);
            assert(strip_start(rest, ws) == rest);
        } else {
            assert(rest.len() == 0);
        }
        assert(strip_start(cs@, ws) == rest);
        assert forall|j: int| b - a <= j < rest.len() implies ws(#[trigger] rest[j]) by {
            assert(rest[j] == cs@[j + a]);
        }
        lemma_strip_end_take(rest, ws, b - a);
        let kept = rest.subrange(0, b - a);
        assert(kept =~= cs@.subrange(a as int, b as int));
        if b > a {
            assert(kept.last() == cs@[b - 1]);
            assert(!ws(kept.last()));
        }
        assert(strip_end(kept, ws) == kept);
        assert(trim(cs@) == kept);
    }
    out
}

/// `v` without its leading line breaks.
pub fn strip_leading_newlines(v: &Vec<char>) -> (r: Vec<char>)
    ensures
        r@ == strip_start(v@, |c: char| c == '\n'),
{
    let ghost nl = |c: char| c == '\n';
    let mut a: usize = 0;
    while a < v.len() && v[a] == '\n'
        invariant
            a <= v@.len(),
            forall|j: int| 0 <= j < a ==> #[trigger] v@[j] == '\n',
        decreases v.len() - a,
    {
        a = a + 1;
    }
    proof {
        assert forall|j: int| 0 <= j < a implies nl(#[trigger] v@[j]) by {}
        lemma_strip_start_skip(v@, nl, a as int);
        let rest = v@.subrange(a as int, v@.len() as int);
        if a < v.len() {
            assert(rest[0] == v@[a as int]);
        }
        assert(strip_start(rest, nl) == rest);
    }
    let mut out: Vec<char> = Vec::new();
    let mut i = a;
    while i < v.len()
        invariant
            a <= i <= v@.len(),
            out@ == v@.subrange(a as int, i as int),
        decreases v.len() - i,
    {
        out.push(v[i]);
        i = i + 1;
        assert(v@.subrange(a as int, i as int) =~= v@.subrange(a as int, i - 1).push(v@[i - 1]));
    }
    out
}

/// The character of a decimal digit.
pub open spec fn digit_char(d: nat) -> char {
    ((48 + d) as u8) as char
}

/// The decimal notation of `n`, without leading zeros.
pub open spec fn decimal(n: nat) -> Seq<char>
    decreases n,
{
    if n < 10 {
        seq![digit_char(n)]
    } else {
        decimal(n / 10).push(digit_char(n % 10))
    }
}

/// The decimal notation of a signed integer: a minus sign before negative values.
pub open spec fn signed_decimal(n: int) -> Seq<char> {
    if n < 0 {
        seq!['-'] + decimal((-n) as nat)
    } else {
        decimal(n as nat)
    }
}

/// The character of the decimal digit `d`.
pub(crate) fn digit(d: u128) -> (c: char)
    requires
        d < 10,
    ensures
        c == digit_char(d as nat),
{
    let b: u8 = 48u8 + (d as u8);
    b as char
}

/// The decimal digits of `n`, as characters.
pub fn decimal_chars(n: u128) -> (r: Vec<char>)
    ensures
        r@ == decimal(n as nat),
{
    let mut m: u128 = n;
    let mut tail: Vec<char> = Vec::new();
    while m >= 10
        invariant
            decimal(n as nat) == decimal(m as nat) + tail@,
        decreases m,
    {
        let c = digit(m % 10);
        tail.insert(0, c);
        assert(decimal(m as nat) == decimal((m / 10) as nat).push(digit_char((m % 10) as nat)));
        m = m / 10;
        assert(decimal(n as nat) == decimal(m as nat) + tail@);
    }
    let c = digit(m);
    tail.insert(0, c);
    assert(tail@ == decimal(m as nat) + tail@.subrange(1, tail@.len() as int));
    tail
}

/// Appends the decimal notation of `n` to `v`.
pub fn push_decimal(v: &mut Vec<char>, n: u128)
    ensures
        final(v)@ == old(v)@ + decimal(n as nat),
{
    let ds = decimal_chars(n);
    push_chars(v, &ds);
}

/// Appends the decimal notation of the signed integer `n` to `v`.
pub fn push_signed_decimal(v: &mut Vec<char>, n: i64)
    ensures
        final(v)@ == old(v)@ + signed_decimal(n as int),
{
    if n < 0 {
        v.push('-');
        let m: i128 = -(n as i128);
        push_decimal(v, m as u128);
        assert(v@ == old(v)@ + signed_decimal(n as int));
    } else {
        push_decimal(v, n as u128);
    }
}

/// The decimal notation of `n` as a `String`.
pub fn decimal_string(n: u128) -> (r: String)
    ensures
        r@ == decimal(n as nat),
{
    let ds = decimal_chars(n);
    string_from_chars(ds.as_slice())
}

/// Lines joined by line breaks.
pub open spec fn join_lines(lines: Seq<Seq<char>>) -> Seq<char>
    decreases lines.len(),
{
    if lines.len() == 0 {
        Seq::empty()
    } else if lines.len() == 1 {
        lines[0]
    } else {
        join_lines(lines.drop_last()) + "\n"@ + lines.last()
    }
}

/// Appends `line` to the text `out` of the lines before it, after a line
/// break unless it is the first.
pub(crate) fn push_line(out: &mut Vec<char>, lines: Ghost<Seq<Seq<char>>>, first: bool, line: &Vec<char>)
    requires
        old(out)@ == join_lines(lines@),
        first == (lines@.len() == 0),
    ensures
        final(out)@ == join_lines(lines@.push(line@)),
{
    proof {
        assert(lines@.push(line@).drop_last() =~= lines@);
    }
    if first {
        push_chars(out, line);
        assert(out@ =~= line@);
    } else {
        out.push('\n');
        push_chars(out, line);
        assert(out@ =~= join_lines(lines@) + "\n"@ + line@) by {
            reveal_strlit("\n");
        }
    }
}

} // verus!
