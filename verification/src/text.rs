//! Verified text utilities shared by the MIME model, the policy engine and
//! the filter: equality and affix tests, substring search, ASCII case
//! folding, decimal formatting and parsing.

use vstd::prelude::*;

verus! {

/// Relies on `String::push` of std: appending one character to the end of
/// the string.
pub assume_specification[ String::push ](s: &mut String, c: char)
    ensures
        final(s)@ == old(s)@.push(c),
;

/// Compare two string slices for character-for-character equality.
pub fn str_eq(a: &str, b: &str) -> (r: bool)
    ensures
        r == (a@ == b@),
{
    let sa: String = a.to_owned();
    let sb: String = b.to_owned();
    sa == sb
}

/// True when `p` is a prefix of `s`.
pub open spec fn spec_starts_with(s: Seq<char>, p: Seq<char>) -> bool {
    p.len() <= s.len() && s.subrange(0, p.len() as int) == p
}

pub fn starts_with(s: &str, p: &str) -> (r: bool)
    ensures
        r == spec_starts_with(s@, p@),
{
    let n: usize = s.unicode_len();
    let m: usize = p.unicode_len();
    if m > n {
        return false;
    }
    let head = s.substring_char(0, m);
    str_eq(head, p)
}

/// True when `p` is a suffix of `s`.
pub open spec fn spec_ends_with(s: Seq<char>, p: Seq<char>) -> bool {
    p.len() <= s.len() && s.subrange(s.len() - p.len(), s.len() as int) == p
}

pub fn ends_with(s: &str, p: &str) -> (r: bool)
    ensures
        r == spec_ends_with(s@, p@),
{
    let n: usize = s.unicode_len();
    let m: usize = p.unicode_len();
    if m > n {
        return false;
    }
    let tail = s.substring_char(n - m, n);
    str_eq(tail, p)
}

/// True when `p` occurs inside `s` as a contiguous run.
pub open spec fn spec_contains(s: Seq<char>, p: Seq<char>) -> bool {
    exists|i: int|
        0 <= i && i + p.len() <= s.len() && #[trigger] s.subrange(i, i + p.len()) == p
}

pub fn contains_str(s: &str, p: &str) -> (r: bool)
    ensures
        r == spec_contains(s@, p@),
{
    let n: usize = s.unicode_len();
    let m: usize = p.unicode_len();
    if m > n {
        return false;
    }
    if m == 0 {
        assert(s@.subrange(0, 0 + p@.len() as int) =~= p@);
        return true;
    }
    let mut i: usize = 0;
    while i <= n - m
        invariant
            1 <= m <= n == s@.len(),
            m == p@.len(),
            i <= n - m + 1,
            forall|j: int| 0 <= j < i ==> #[trigger] s@.subrange(j, j + p@.len()) != p@,
        decreases n - m - i + 1,
    {
        let w = s.substring_char(i, i + m);
        if str_eq(w, p) {
            assert(s@.subrange(i as int, i + p@.len()) == p@);
            return true;
        }
        i = i + 1;
    }
    false
}

/// ASCII case folding of one character.
pub open spec fn spec_lower_char(c: char) -> char {
    if 'A' <= c && c <= 'Z' {
        ((c as u8) + 0x20) as char
    } else {
        c
    }
}

/// ASCII case folding of a character sequence.
pub open spec fn spec_lower(s: Seq<char>) -> Seq<char> {
    s.map_values(|c: char| spec_lower_char(c))
}

fn lower_char(c: char) -> (r: char)
    ensures
        r == spec_lower_char(c),
{
    if 'A' <= c && c <= 'Z' {
        (((c as u8) + 0x20) as char)
    } else {
        c
    }
}

/// ASCII-lowercase a string; characters outside `A`..`Z` are unchanged.
pub fn to_lowercase(s: &str) -> (r: String)
    ensures
        r@ == spec_lower(s@),
{
    let n: usize = s.unicode_len();
    let mut out = String::new();
    let mut i: usize = 0;
    while i < n
        invariant
            n == s@.len(),
            i <= n,
            out@ == spec_lower(s@.subrange(0, i as int)),
        decreases n - i,
    {
        let c = s.get_char(i);
        out.push(lower_char(c));
        assert(s@.subrange(0, i + 1) == s@.subrange(0, i as int).push(s@[i as int]));
        assert(out@ =~= spec_lower(s@.subrange(0, i + 1)));
        i = i + 1;
    }
    assert(s@.subrange(0, n as int) == s@);
    out
}

/// `s` with its surrounding angle brackets stripped: one leading `<` and
/// one trailing `>` are removed when present; interior characters stay as
/// they are.
pub open spec fn spec_strip_angles(s: Seq<char>) -> Seq<char> {
    let t = if s.len() > 0 && s.first() == '<' {
        s.drop_first()
    } else {
        s
    };
    if t.len() > 0 && t.last() == '>' {
        t.drop_last()
    } else {
        t
    }
}

/// Strip the surrounding angle brackets off `s`, as done when a
/// `Message-ID` header value is stored.
pub fn strip_angles(s: &str) -> (r: String)
    ensures
        r@ == spec_strip_angles(s@),
{
    let n: usize = s.unicode_len();
    let from: usize = if n > 0 && s.get_char(0) == '<' {
        1
    } else {
        0
    };
    let to: usize = if n > from && s.get_char(n - 1) == '>' {
        n - 1
    } else {
        n
    };
    let inner = s.substring_char(from, to);
    proof {
        let t = if s@.len() > 0 && s@.first() == '<' {
            s@.drop_first()
        } else {
            s@
        };
        assert(t == s@.subrange(from as int, n as int));
        assert(spec_strip_angles(s@) =~= s@.subrange(from as int, to as int));
    }
    inner.to_owned()
}

/// The prefix of `s` that precedes the first `sep`; all of `s` when `sep`
/// does not occur.
pub open spec fn spec_before(s: Seq<char>, sep: char) -> Seq<char> {
    match s.index_of_first(sep) {
        Some(i) => s.subrange(0, i),
        None => s,
    }
}

/// Split off the first `sep`-separated token of `s`.
pub fn before_char(s: &str, sep: char) -> (r: String)
    ensures
        r@ == spec_before(s@, sep),
{
    let n: usize = s.unicode_len();
    let mut i: usize = 0;
    while i < n
        invariant
            n == s@.len(),
            i <= n,
            forall|j: int| 0 <= j < i ==> s@[j] != sep,
        decreases n - i,
    {
        if s.get_char(i) == sep {
            proof {
                s@.index_of_first_ensures(sep);
                assert(s@[i as int] == sep);
            }
            let head = s.substring_char(0, i);
            return head.to_owned();
        }
        i = i + 1;
    }
    proof {
        s@.index_of_first_ensures(sep);
        assert(!s@.contains(sep));
    }
    s.to_owned()
}

/// The items joined with `sep` between each pair.
pub open spec fn spec_join(ss: Seq<Seq<char>>, sep: Seq<char>) -> Seq<char>
    decreases ss.len(),
{
    if ss.len() == 0 {
        Seq::empty()
    } else if ss.len() == 1 {
        ss.last()
    } else {
        spec_join(ss.drop_last(), sep) + sep + ss.last()
    }
}

/// Join the items with `sep` between each pair.
pub fn join(items: &Vec<String>, sep: &str) -> (r: String)
    ensures
        r@ == spec_join(items.deep_view(), sep@),
{
    let n = items.len();
    if n == 0 {
        return String::new();
    }
    let mut out: String = items[0].clone();
    assert(out@ == spec_join(items.deep_view().subrange(0, 1), sep@));
    let mut i: usize = 1;
    while i < n
        invariant
            1 <= i <= n == items@.len(),
            out@ == spec_join(items.deep_view().subrange(0, i as int), sep@),
        decreases n - i,
    {
        out.append(sep);
        out.append(items[i].as_str());
        proof {
            let dv = items.deep_view();
            assert(dv.subrange(0, i + 1).drop_last() == dv.subrange(0, i as int));
            assert(dv.subrange(0, i + 1).last() == dv[i as int]);
            assert(dv[i as int] == items@[i as int]@);
        }
        i = i + 1;
    }
    proof {
        assert(items.deep_view().subrange(0, n as int) == items.deep_view());
    }
    out
}

/// The character for the decimal digit `d`.
pub open spec fn spec_digit(d: nat) -> char {
    ((d + 0x30) as u8) as char
}

/// Decimal digits of `n`, most significant first.
pub open spec fn spec_dec(n: nat) -> Seq<char>
    decreases n,
{
    if n < 10 {
        seq![spec_digit(n)]
    } else {
        spec_dec(n / 10).push(spec_digit(n % 10))
    }
}

/// Format `n` in decimal.
pub fn u64_to_string(n: u64) -> (r: String)
    ensures
        r@ == spec_dec(n as nat),
    decreases n,
{
    let d: u8 = (n % 10) as u8;
    let c: char = (d + 0x30) as char;
    if n < 10 {
        let mut s = String::new();
        s.push(c);
        assert(s@ =~= seq![c]);
        s
    } else {
        let mut s = u64_to_string(n / 10);
        s.push(c);
        s
    }
}

/// Whether `s` is a non-empty run of decimal digits.
pub open spec fn spec_all_digits(s: Seq<char>) -> bool {
    s.len() > 0 && forall|i: int| 0 <= i < s.len() ==> '0' <= #[trigger] s[i] && s[i] <= '9'
}

/// Numeric value of a digit run, most significant first.
pub open spec fn spec_dec_value(s: Seq<char>) -> nat
    decreases s.len(),
{
    if s.len() == 0 {
        0
    } else {
        (spec_dec_value(s.drop_last()) * 10 + s.last() as int - '0' as int) as nat
    }
}

/// Parse a decimal `u64`. Returns `Some` exactly when `s` is a non-empty
/// digit run whose value fits in a `u64`.
pub fn parse_u64(s: &str) -> (r: Option<u64>)
    ensures
        match r {
            Some(v) => spec_all_digits(s@) && v as nat == spec_dec_value(s@) && spec_dec_value(s@)
                <= u64::MAX,
            None => !spec_all_digits(s@) || spec_dec_value(s@) > u64::MAX,
        },
{
    let n: usize = s.unicode_len();
    if n == 0 {
        return None;
    }
    let mut acc: u64 = 0;
    let mut i: usize = 0;
    while i < n
        invariant
            n == s@.len(),
            i <= n,
            acc as nat == spec_dec_value(s@.subrange(0, i as int)),
            forall|j: int| 0 <= j < i ==> '0' <= #[trigger] s@[j] && s@[j] <= '9',
        decreases n - i,
    {
        let c = s.get_char(i);
        if c < '0' || c > '9' {
            return None;
        }
        let d: u64 = ((c as u8) - 0x30) as u64;
        proof {
            assert(s@.subrange(0, i + 1).drop_last() == s@.subrange(0, i as int));
        }
        if acc > (u64::MAX - d) / 10 {
            proof {
                assert(acc * 10 + d > u64::MAX) by (nonlinear_arith)
                    requires
                        acc > (u64::MAX - d) / 10,
                        d <= 9,
                        acc <= u64::MAX,
                {}
                if spec_all_digits(s@) {
                    lemma_dec_value_monotonic(s@.subrange(0, i + 1), s@);
                }
            }
            return None;
        }
        proof {
            assert(acc * 10 + d <= u64::MAX) by (nonlinear_arith)
                requires
                    acc <= (u64::MAX - d) / 10,
                    d <= 9,
            {}
        }
        acc = acc * 10 + d;
        i = i + 1;
    }
    assert(s@.subrange(0, n as int) == s@);
    Some(acc)
}

/// A digit run's value is at least the value of any of its prefixes.
proof fn lemma_dec_value_monotonic(p: Seq<char>, s: Seq<char>)
    requires
        p.len() <= s.len(),
        p == s.subrange(0, p.len() as int),
        forall|i: int| 0 <= i < s.len() ==> '0' <= #[trigger] s[i] && s[i] <= '9',
    ensures
        spec_dec_value(p) <= spec_dec_value(s),
    decreases s.len() - p.len(),
{
    if p.len() < s.len() {
        let q = s.subrange(0, p.len() as int + 1);
        assert(q.drop_last() == p);
        assert(spec_dec_value(q) == spec_dec_value(p) * 10 + (q.last() as nat - ('0' as nat)));
        lemma_dec_value_monotonic(q, s);
    } else {
        assert(p == s);
    }
}

} // verus!
