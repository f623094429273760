//! Character-level string building blocks: conversion between strings and
//! character sequences, decimal and hexadecimal rendering, whitespace
//! trimming, substitution, and lexicographic order.

use vstd::prelude::*;
use vstd::string::*;
use vstd::relations::*;

verus! {

broadcast use vstd::string::group_string_axioms;

/// The characters of `s`, in order.
pub fn chars_of(s: &str) -> (v: Vec<char>)
    ensures
        v@ == s@,
{
    let mut v: Vec<char> = Vec::new();
    for c in it: s.chars()
        invariant
            it.seq() == s@,
            v@ == it.seq().take(it.index() as int),
    {
        v.push(c);
    }
    v
}

/// Appends one character to `s` (std's `String::push`).
#[verifier::external_body]
pub(crate) fn push_char(s: &mut String, c: char)
    ensures
        final(s)@ == old(s)@.push(c),
{
    s.push(c);
}

/// Appends the characters of `tail` to `s`.
pub fn push_str(s: &mut String, tail: &str)
    ensures
        final(s)@ == old(s)@ + tail@,
{
    s.append(tail);
}

/// A string made of the characters of `v`.
pub fn string_from_chars(v: &[char]) -> (s: String)
    ensures
        s@ == v@,
{
    let mut s = String::new();
    let mut i: usize = 0;
    while i < v.len()
        invariant
            i <= v.len(),
            s@ == v@.take(i as int),
        decreases v.len() - i,
    {
        push_char(&mut s, v[i]);
        i += 1;
        assert(s@ =~= v@.take(i as int));
    }
    assert(v@.take(v.len() as int) =~= v@);
    s
}


/// The lower-case hexadecimal digit for `d` (below 16).
pub open spec fn hex_digit(d: nat) -> char {
    if d < 10 {
        (48 + d) as char
    } else {
        (87 + d) as char
    }
}

/// The decimal rendering of `n`, without leading zeros.
pub open spec fn decimal(n: nat) -> Seq<char>
    decreases n,
{
    if n < 10 {
        seq![hex_digit(n)]
    } else {
        decimal(n / 10).push(hex_digit(n % 10))
    }
}

/// The last `k` hexadecimal digits of `n`, zero-padded.
pub open spec fn hex_fixed(n: nat, k: nat) -> Seq<char>
    decreases k,
{
    if k == 0 {
        Seq::empty()
    } else {
        hex_fixed(n / 16, (k - 1) as nat).push(hex_digit(n % 16))
    }
}

fn hex_digit_char(d: u64) -> (c: char)
    requires
        d < 16,
    ensures
        c == hex_digit(d as nat),
{
    let b: u8 = d as u8;
    if b < 10 {
        (b + 48) as char
    } else {
        (b + 87) as char
    }
}

/// Appends the decimal rendering of `n` to `out`.
pub fn push_decimal(out: &mut String, n: u64)
    ensures
        final(out)@ == old(out)@ + decimal(n as nat),
    decreases n,
{
    if n >= 10 {
        push_decimal(out, n / 10);
    }
    push_char(out, hex_digit_char(n % 10));
}

/// The decimal rendering of `n` (what `n.to_string()` gives).
pub fn decimal_string(n: u64) -> (s: String)
    ensures
        s@ == decimal(n as nat),
{
    let mut s = String::new();
    push_decimal(&mut s, n);
    s
}

/// Appends the last `k` hexadecimal digits of `n` to `out`, zero-padded.
pub fn push_hex_fixed(out: &mut String, n: u64, k: u64)
    ensures
        final(out)@ == old(out)@ + hex_fixed(n as nat, k as nat),
    decreases k,
{
    if k > 0 {
        push_hex_fixed(out, n / 16, k - 1);
        push_char(out, hex_digit_char(n % 16));
    }
}


/// Unicode `White_Space`: the characters that `char::is_whitespace` accepts
/// and that `str::trim` removes.
pub open spec fn is_white_space(c: char) -> bool {
    let u = c as u32;
    ||| 0x09 <= u <= 0x0D
    ||| u == 0x20
    ||| u == 0x85
    ||| u == 0xA0
    ||| u == 0x1680
    ||| 0x2000 <= u <= 0x200A
    ||| u == 0x2028
    ||| u == 0x2029
    ||| u == 0x202F
    ||| u == 0x205F
    ||| u == 0x3000
}

/// Whether `c` is Unicode white space.
pub fn white_space(c: char) -> (b: bool)
    ensures
        b == is_white_space(c),
{
    let u = c as u32;
    (0x09 <= u && u <= 0x0D) || u == 0x20 || u == 0x85 || u == 0xA0 || u == 0x1680 || (0x2000
        <= u && u <= 0x200A) || u == 0x2028 || u == 0x2029 || u == 0x202F || u == 0x205F || u
        == 0x3000
}

/// `s` without its leading white space.
pub open spec fn trim_front(s: Seq<char>) -> Seq<char>
    decreases s.len(),
{
    if s.len() > 0 && is_white_space(s[0]) {
        trim_front(s.drop_first())
    } else {
        s
    }
}

/// `s` without its trailing white space.
pub open spec fn trim_back(s: Seq<char>) -> Seq<char>
    decreases s.len(),
{
    if s.len() > 0 && is_white_space(s.last()) {
        trim_back(s.drop_last())
    } else {
        s
    }
}

/// `s` without leading and trailing white space (what `str::trim` gives).
pub open spec fn trimmed(s: Seq<char>) -> Seq<char> {
    trim_back(trim_front(s))
}

/// Whether `s` is empty or all white space.
pub open spec fn is_blank(s: Seq<char>) -> bool {
    trimmed(s).len() == 0
}

/// The characters `v[a..b]` as a string.
pub fn string_from_range(v: &Vec<char>, a: usize, b: usize) -> (s: String)
    requires
        a <= b <= v.len(),
    ensures
        s@ == v@.subrange(a as int, b as int),
{
    let mut s = String::new();
    let mut i: usize = a;
    while i < b
        invariant
            a <= i <= b <= v.len(),
            s@ == v@.subrange(a as int, i as int),
        decreases b - i,
    {
        push_char(&mut s, v[i]);
        i += 1;
        assert(s@ =~= v@.subrange(a as int, i as int));
    }
    s
}

/// `s` with leading and trailing white space removed.
pub fn trim(s: &str) -> (t: String)
    ensures
        t@ == trimmed(s@),
{
    let v = chars_of(s);
    let n = v.len();
    let mut start: usize = 0;
    assert(v@.skip(0) =~= v@);
    while start < n && white_space(v[start])
        invariant
            start <= n == v@.len(),
            v@ == s@,
            trim_front(v@) == trim_front(v@.skip(start as int)),
        decreases n - start,
    {
        assert(v@.skip(start as int).drop_first() =~= v@.skip(start + 1));
        start += 1;
    }
    assert(trim_front(v@) == v@.skip(start as int));
    let mut end: usize = n;
    while end > start && white_space(v[end - 1])
        invariant
            start <= end <= n == v@.len(),
            trim_back(v@.skip(start as int)) == trim_back(v@.subrange(start as int, end as int)),
        decreases end - start,
    {
        assert(v@.subrange(start as int, end as int).drop_last() =~= v@.subrange(
            start as int,
            end - 1,
        ));
        end -= 1;
    }
    assert(v@.skip(start as int) =~= v@.subrange(start as int, n as int));
    string_from_range(&v, start, end)
}

/// Whether `s` is empty or all white space (`s.trim().is_empty()`).
pub fn blank(s: &str) -> (b: bool)
    ensures
        b == is_blank(s@),
{
    let t = trim(s);
    t.as_str().is_empty()
}


/// `s` with every non-overlapping occurrence of `pat`, scanning from the
/// left, replaced by `to` (what `str::replace` gives for a non-empty pattern).
pub open spec fn replaced(s: Seq<char>, pat: Seq<char>, to: Seq<char>) -> Seq<char>
    decreases s.len(),
{
    if pat.len() == 0 || s.len() < pat.len() {
        s
    } else if s.take(pat.len() as int) == pat {
        to + replaced(s.skip(pat.len() as int), pat, to)
    } else {
        seq![s[0]] + replaced(s.drop_first(), pat, to)
    }
}

/// Whether `p` occurs in `v` at position `i`.
fn occurs_at(v: &Vec<char>, i: usize, p: &Vec<char>) -> (b: bool)
    requires
        i <= v.len(),
    ensures
        b == (i + p.len() <= v.len() && v@.subrange(i as int, i + p.len()) == p@),
{
    if p.len() > v.len() - i {
        return false;
    }
    let mut k: usize = 0;
    while k < p.len()
        invariant
            i + p.len() <= v.len(),
            k <= p.len(),
            forall|j: int| 0 <= j < k ==> v@[i + j] == p@[j],
        decreases p.len() - k,
    {
        if v[i + k] != p[k] {
            assert(v@.subrange(i as int, i + p.len())[k as int] != p@[k as int]);
            return false;
        }
        k += 1;
    }
    assert(v@.subrange(i as int, i + p.len()) =~= p@);
    true
}

/// `s` with every occurrence of the non-empty `pat` replaced by `to`.
pub fn replace_all(s: &str, pat: &str, to: &str) -> (r: String)
    requires
        pat@.len() > 0,
    ensures
        r@ == replaced(s@, pat@, to@),
{
    let v = chars_of(s);
    let p = chars_of(pat);
    let mut out = String::new();
    let mut i: usize = 0;
    assert(v@.skip(0) =~= v@);
    while i < v.len()
        invariant
            i <= v.len(),
            v@ == s@,
            p@ == pat@,
            p@.len() > 0,
            out@ + replaced(v@.skip(i as int), p@, to@) == replaced(s@, pat@, to@),
        decreases v.len() - i,
    {
        let ghost rest = v@.skip(i as int);
        if occurs_at(&v, i, &p) {
            assert(rest.take(p@.len() as int) =~= v@.subrange(i as int, i + p@.len()));
            assert(rest.skip(p@.len() as int) =~= v@.skip(i + p@.len()));
            push_str(&mut out, to);
            i += p.len();
            assert(out@ + replaced(v@.skip(i as int), p@, to@) =~= replaced(s@, pat@, to@));
        } else if v.len() - i < p.len() {
            // Nothing left can match: the rest is copied as it is.
            assert(replaced(rest, p@, to@) == rest);
            let tail = string_from_range(&v, i, v.len());
            assert(tail@ =~= rest);
            push_str(&mut out, tail.as_str());
            i = v.len();
            assert(v@.skip(i as int) =~= Seq::<char>::empty());
            assert(replaced(Seq::<char>::empty(), p@, to@) == Seq::<char>::empty());
            assert(out@ + replaced(v@.skip(i as int), p@, to@) =~= replaced(s@, pat@, to@));
        } else {
            assert(rest.take(p@.len() as int) =~= v@.subrange(i as int, i + p@.len()));
            assert(rest.drop_first() =~= v@.skip(i + 1));
            push_char(&mut out, v[i]);
            i += 1;
            assert(out@ + replaced(v@.skip(i as int), p@, to@) =~= replaced(s@, pat@, to@));
        }
    }
    assert(v@.skip(i as int) =~= Seq::<char>::empty());
    assert(out@ + Seq::<char>::empty() =~= out@);
    out
}


/// Lexicographic order of character sequences by code point (the order of
/// `str` comparison, since UTF-8 preserves code point order).
pub open spec fn lex_lt(a: Seq<char>, b: Seq<char>) -> bool
    decreases a.len(),
{
    if a.len() == 0 {
        b.len() > 0
    } else if b.len() == 0 {
        false
    } else if a[0] != b[0] {
        (a[0] as int) < (b[0] as int)
    } else {
        lex_lt(a.drop_first(), b.drop_first())
    }
}

/// `a` comes before `b` or equals it.
pub open spec fn lex_le(a: Seq<char>, b: Seq<char>) -> bool {
    a == b || lex_lt(a, b)
}

/// Exactly one of `a < b`, `a == b`, `b < a` holds.
pub proof fn lemma_lex_trichotomy(a: Seq<char>, b: Seq<char>)
    ensures
        lex_lt(a, b) || a == b || lex_lt(b, a),
        !(lex_lt(a, b) && lex_lt(b, a)),
        !lex_lt(a, a),
    decreases a.len(),
{
    if a.len() > 0 && b.len() > 0 && a[0] != b[0] {
        assert((a[0] as int) != (b[0] as int));
    }
    if a.len() > 0 && b.len() > 0 && a[0] == b[0] {
        lemma_lex_trichotomy(a.drop_first(), b.drop_first());
        if a.drop_first() == b.drop_first() {
            assert(a =~= seq![a[0]] + a.drop_first());
            assert(b =~= seq![b[0]] + b.drop_first());
        }
    }
    if a.len() > 0 {
        lemma_lex_trichotomy(a.drop_first(), a.drop_first());
    }
    if a.len() == 0 && b.len() == 0 {
        assert(a =~= b);
    }
}

/// `a < b < c` gives `a < c`.
pub proof fn lemma_lex_transitive(a: Seq<char>, b: Seq<char>, c: Seq<char>)
    requires
        lex_lt(a, b),
        lex_lt(b, c),
    ensures
        lex_lt(a, c),
    decreases a.len(),
{
    if a.len() > 0 && b.len() > 0 && c.len() > 0 && a[0] == b[0] && b[0] == c[0] {
        lemma_lex_transitive(a.drop_first(), b.drop_first(), c.drop_first());
    }
}

/// `lex_le` is a total order.
pub proof fn lemma_lex_le_total_ordering()
    ensures
        total_ordering(|a: Seq<char>, b: Seq<char>| lex_le(a, b)),
{
    let leq = |a: Seq<char>, b: Seq<char>| lex_le(a, b);
    assert forall|a: Seq<char>, b: Seq<char>| #[trigger] leq(a, b) && #[trigger] leq(b, a) implies a
        == b by {
        lemma_lex_trichotomy(a, b);
    }
    assert forall|a: Seq<char>, b: Seq<char>, c: Seq<char>| #[trigger] leq(a, b) && #[trigger] leq(
        b,
        c,
    ) implies leq(a, c) by {
        if a != b && b != c {
            lemma_lex_transitive(a, b, c);
        }
    }
    assert forall|a: Seq<char>, b: Seq<char>| #[trigger] leq(a, b) || #[trigger] leq(b, a) by {
        lemma_lex_trichotomy(a, b);
    }
}

/// Whether `a` comes strictly before `b` (`a < b` on strings).
pub fn str_lt(a: &str, b: &str) -> (r: bool)
    ensures
        r == lex_lt(a@, b@),
{
    let x = chars_of(a);
    let y = chars_of(b);
    let mut i: usize = 0;
    assert(x@.skip(0) =~= x@);
    assert(y@.skip(0) =~= y@);
    while i < x.len() && i < y.len() && x[i] == y[i]
        invariant
            i <= x.len(),
            i <= y.len(),
            x@ == a@,
            y@ == b@,
            lex_lt(a@, b@) == lex_lt(x@.skip(i as int), y@.skip(i as int)),
        decreases x.len() - i,
    {
        assert(x@.skip(i as int).drop_first() =~= x@.skip(i + 1));
        assert(y@.skip(i as int).drop_first() =~= y@.skip(i + 1));
        i += 1;
    }
    if i == x.len() {
        i < y.len()
    } else if i == y.len() {
        false
    } else {
        x[i] < y[i]
    }
}

/// The views of a sequence of strings.
pub open spec fn views(v: Seq<String>) -> Seq<Seq<char>> {
    v.map_values(|s: String| s@)
}

/// Every element of `s` comes before or equals every later one.
pub open spec fn lex_sorted(s: Seq<Seq<char>>) -> bool {
    forall|i: int, j: int| 0 <= i < j < s.len() ==> lex_le(#[trigger] s[i], #[trigger] s[j])
}

/// The lexicographic order as a relation.
pub open spec fn lex_order() -> spec_fn(Seq<char>, Seq<char>) -> bool {
    |a: Seq<char>, b: Seq<char>| lex_le(a, b)
}

/// A sorted permutation of `v` is `v` sorted by `lex_order`.
proof fn lemma_sorted_is_sort_by(s: Seq<Seq<char>>, v: Seq<Seq<char>>)
    requires
        lex_sorted(s),
        s.to_multiset() == v.to_multiset(),
    ensures
        s == v.sort_by(lex_order()),
{
    lemma_lex_le_total_ordering();
    assert(lex_order() == (|a: Seq<char>, b: Seq<char>| lex_le(a, b)));
    v.lemma_sort_by_ensures(lex_order());
    assert(sorted_by(s, lex_order())) by {
        assert forall|i: int, j: int| 0 <= i < j < s.len() implies #[trigger] (lex_order())(
            s[i],
            s[j],
        ) by {
            assert(lex_le(s[i], s[j]));
        }
    }
    vstd::seq_lib::lemma_sorted_unique(s, v.sort_by(lex_order()), lex_order());
}

/// The strings of `v` in ascending order (what `v.sort()` leaves).
pub fn sort_strings(v: Vec<String>) -> (out: Vec<String>)
    ensures
        lex_sorted(views(out@)),
        views(out@).to_multiset() == views(v@).to_multiset(),
        views(out@) == views(v@).sort_by(lex_order()),
{
    let mut out: Vec<String> = Vec::new();
    let mut i: usize = 0;
    assert(views(out@) =~= views(v@.take(0)));
    while i < v.len()
        invariant
            i <= v.len(),
            lex_sorted(views(out@)),
            views(out@).to_multiset() == views(v@.take(i as int)).to_multiset(),
        decreases v.len() - i,
    {
        let x = v[i].clone();
        let mut p: usize = 0;
        while p < out.len() && !str_lt(x.as_str(), out[p].as_str())
            invariant
                p <= out.len(),
                x@ == v@[i as int]@,
                forall|j: int| 0 <= j < p ==> lex_le(#[trigger] out@[j]@, x@),
            decreases out.len() - p,
        {
            proof {
                lemma_lex_trichotomy(x@, out@[p as int]@);
            }
            p += 1;
        }
        let ghost old_out = out@;
        out.insert(p, x);
        proof {
            assert(views(out@) =~= views(old_out).insert(p as int, x@));
            vstd::seq_lib::to_multiset_insert(views(old_out), p as int, x@);
            assert(views(v@.take(i + 1)) =~= views(v@.take(i as int)).push(x@));
            vstd::seq_lib::to_multiset_build(views(v@.take(i as int)), x@);
            assert forall|a: int, b: int| 0 <= a < b < out@.len() implies #[trigger] lex_le(
                views(out@)[a],
                views(out@)[b],
            ) by {
                let va = views(out@)[a];
                let vb = views(out@)[b];
                if a < p && b == p {
                    assert(va == old_out[a]@);
                } else if a == p && b > p {
                    // x < out[p] <= out[b - 1]
                    assert(vb == old_out[b - 1]@);
                    assert(p < old_out.len());
                    assert(lex_lt(x@, old_out[p as int]@));
                    if b - 1 > p {
                        assert(lex_le(views(old_out)[p as int], views(old_out)[b - 1]));
                        if old_out[p as int]@ != old_out[b - 1]@ {
                            lemma_lex_transitive(x@, old_out[p as int]@, old_out[b - 1]@);
                        }
                    }
                } else if a < p && b < p {
                    assert(lex_le(views(old_out)[a], views(old_out)[b]));
                } else if a < p && b > p {
                    assert(lex_le(views(old_out)[a], views(old_out)[b - 1]));
                } else {
                    assert(lex_le(views(old_out)[a - 1], views(old_out)[b - 1]));
                }
            }
        }
        i += 1;
    }
    assert(v@.take(v.len() as int) =~= v@);
    proof {
        lemma_sorted_is_sort_by(views(out@), views(v@));
    }
    out
}


/// Whether `a` and `b` hold the same characters.
pub fn str_eq(a: &str, b: &str) -> (r: bool)
    ensures
        r == (a@ == b@),
{
    let x = chars_of(a);
    let y = chars_of(b);
    if x.len() != y.len() {
        return false;
    }
    let mut i: usize = 0;
    while i < x.len()
        invariant
            i <= x.len() == y.len(),
            x@ == a@,
            y@ == b@,
            forall|j: int| 0 <= j < i ==> x@[j] == y@[j],
        decreases x.len() - i,
    {
        if x[i] != y[i] {
            return false;
        }
        i += 1;
    }
    assert(x@ =~= y@);
    true
}


/// What `{:?}` gives a string: the string quoted, with its special
/// characters escaped.
pub uninterp spec fn debug_quoted(s: Seq<char>) -> Seq<char>;

/// The `{:?}` rendering of `s`.
///
/// Trusted: calls std's `Debug` formatting of `str`. Claims that the result
/// is a function of the string's characters, and that a string of printable
/// ASCII characters other than `"` and `\\` is only put between double
/// quotes (std escapes nothing else of printable ASCII in a `str`). What the
/// other escapes are is left unsaid.
#[verifier::external_body]
pub(crate) fn quote_debug(s: &str) -> (r: String)
    ensures
        r@ == debug_quoted(s@),
        (forall|i: int| 0 <= i < s@.len() ==> #[trigger] plain_debug_char(s@[i]))
            ==> r@ == seq!['"'] + s@ + seq!['"'],
{
    format!("{:?}", s)
}

/// A character that `{:?}` leaves as it is in a string: printable ASCII
/// other than `"` and `\\`.
pub open spec fn plain_debug_char(c: char) -> bool {
    0x20 <= (c as u32) < 0x7F && c != '"' && c != '\\'
}

/// The views of a sequence of string slices.
pub open spec fn str_views(v: Seq<&str>) -> Seq<Seq<char>> {
    v.map_values(|s: &str| s@)
}

/// Whether `x` is one of the strings of `v`.
pub fn contains_str(v: &Vec<&str>, x: &str) -> (b: bool)
    ensures
        b == str_views(v@).contains(x@),
{
    let mut i: usize = 0;
    while i < v.len()
        invariant
            i <= v.len(),
            forall|j: int| 0 <= j < i ==> v@[j]@ != x@,
        decreases v.len() - i,
    {
        if str_eq(v[i], x) {
            assert(str_views(v@)[i as int] == x@);
            return true;
        }
        i += 1;
    }
    assert forall|j: int| 0 <= j < str_views(v@).len() implies str_views(v@)[j] != x@ by {
        assert(str_views(v@)[j] == v@[j]@);
    }
    false
}

/// Whether `x` is one of the strings of `v`.
pub fn contains_string(v: &Vec<String>, x: &str) -> (b: bool)
    ensures
        b == views(v@).contains(x@),
{
    let mut i: usize = 0;
    while i < v.len()
        invariant
            i <= v.len(),
            forall|j: int| 0 <= j < i ==> v@[j]@ != x@,
        decreases v.len() - i,
    {
        if str_eq(v[i].as_str(), x) {
            assert(views(v@)[i as int] == x@);
            return true;
        }
        i += 1;
    }
    assert forall|j: int| 0 <= j < views(v@).len() implies views(v@)[j] != x@ by {
        assert(views(v@)[j] == v@[j]@);
    }
    false
}

/// Joining the first `n + 1` pieces is joining the first `n` and then the
/// last one.
pub proof fn lemma_new_flatten_push<A>(n: nat, f: spec_fn(int) -> Seq<A>)
    ensures
        Seq::new(n + 1, f).flatten() == Seq::new(n, f).flatten() + f(n as int),
{
    assert(Seq::new(n + 1, f) =~= Seq::new(n, f).push(f(n as int)));
    Seq::new(n, f).lemma_flatten_push(f(n as int));
}


/// Whether `s` begins with `p`.
pub open spec fn has_prefix(s: Seq<char>, p: Seq<char>) -> bool {
    p.len() <= s.len() && s.take(p.len() as int) == p
}

/// Whether `s` begins with `p`.
pub fn starts_with(s: &str, p: &str) -> (b: bool)
    ensures
        b == has_prefix(s@, p@),
{
    let x = chars_of(s);
    let y = chars_of(p);
    if y.len() > x.len() {
        return false;
    }
    let mut i: usize = 0;
    while i < y.len()
        invariant
            i <= y.len() <= x.len(),
            x@ == s@,
            y@ == p@,
            forall|j: int| 0 <= j < i ==> x@[j] == y@[j],
        decreases y.len() - i,
    {
        if x[i] != y[i] {
            assert(s@.take(p@.len() as int)[i as int] != p@[i as int]);
            return false;
        }
        i += 1;
    }
    assert(s@.take(p@.len() as int) =~= p@);
    true
}

/// The run of non-white-space characters at the end of `t`.
pub open spec fn tail_word(t: Seq<char>) -> Seq<char>
    decreases t.len(),
{
    if t.len() == 0 || is_white_space(t.last()) {
        Seq::empty()
    } else {
        tail_word(t.drop_last()).push(t.last())
    }
}

/// The last white-space separated word of `s`, if it has one (what
/// `s.split_whitespace().last()` gives).
pub open spec fn last_word(s: Seq<char>) -> Option<Seq<char>> {
    if trim_back(s).len() == 0 {
        None
    } else {
        Some(tail_word(trim_back(s)))
    }
}

/// The last white-space separated word of `s`.
pub fn last_word_of(s: &str) -> (r: Option<String>)
    ensures
        match r {
            Some(w) => last_word(s@) == Some(w@),
            None => last_word(s@) is None,
        },
{
    let v = chars_of(s);
    let mut end: usize = v.len();
    assert(v@.subrange(0, end as int) =~= v@);
    while end > 0 && white_space(v[end - 1])
        invariant
            end <= v@.len(),
            v@ == s@,
            trim_back(s@) == trim_back(v@.subrange(0, end as int)),
        decreases end,
    {
        assert(v@.subrange(0, end as int).drop_last() =~= v@.subrange(0, end - 1));
        end -= 1;
    }
    let ghost t = v@.subrange(0, end as int);
    assert(trim_back(s@) == t);
    if end == 0 {
        return None;
    }
    let mut start: usize = end;
    assert(tail_word(t) =~= tail_word(v@.subrange(0, start as int)) + v@.subrange(start as int, end as int));
    while start > 0 && !white_space(v[start - 1])
        invariant
            start <= end <= v@.len(),
            t == v@.subrange(0, end as int),
            tail_word(t) == tail_word(v@.subrange(0, start as int)) + v@.subrange(start as int, end as int),
        decreases start,
    {
        let ghost u = v@.subrange(0, start as int);
        assert(u.drop_last() =~= v@.subrange(0, start - 1));
        assert(tail_word(u) == tail_word(v@.subrange(0, start - 1)).push(v@[start - 1]));
        assert(tail_word(t) =~= tail_word(v@.subrange(0, start - 1)) + v@.subrange(start - 1, end as int));
        start -= 1;
    }
    assert(tail_word(v@.subrange(0, start as int)) =~= Seq::<char>::empty());
    assert(tail_word(t) =~= v@.subrange(start as int, end as int));
    Some(string_from_range(&v, start, end))
}

} // verus!
