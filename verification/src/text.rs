//! Text handling on sequences of characters: conversion between strings and
//! character vectors, literal replacement, ASCII lower-casing and decimal
//! notation.

use vstd::prelude::*;

verus! {

/// `String::push` appends one character at the end of the string.
pub assume_specification[ String::push ](s: &mut String, c: char)
    ensures
        final(s)@ == old(s)@.push(c),
;

/// `str` equality holds exactly of two strings with the same characters.
pub assume_specification[ <str as PartialEq>::eq ](a: &str, b: &str) -> (r: bool)
    ensures
        r == (a@ == b@),
;

/// `pat` stands in `s` at index `i`.
pub open spec fn occurs_at(s: Seq<char>, pat: Seq<char>, i: int) -> bool {
    0 <= i && i + pat.len() <= s.len() && s.subrange(i, i + pat.len()) == pat
}

/// `pat` stands somewhere in `s`.
pub open spec fn contains(s: Seq<char>, pat: Seq<char>) -> bool {
    exists|i: int| occurs_at(s, pat, i)
}

/// `s` with every occurrence of `pat` replaced by `to`. Occurrences are
/// found from the left and do not overlap; an empty `pat` occurs nowhere.
pub open spec fn replace_all(s: Seq<char>, pat: Seq<char>, to: Seq<char>) -> Seq<char>
    decreases s.len(),
{
    if pat.len() == 0 || s.len() < pat.len() {
        s
    } else if s.subrange(0, pat.len() as int) == pat {
        to + replace_all(s.skip(pat.len() as int), pat, to)
    } else {
        seq![s[0]] + replace_all(s.skip(1), pat, to)
    }
}

/// The lower-case form of an ASCII upper-case letter; any other character
/// is left alone.
pub open spec fn lower_char(c: char) -> char {
    if 'A' <= c && c <= 'Z' {
        ((c as u8) + 32) as char
    } else {
        c
    }
}

/// `s` with each ASCII upper-case letter in lower case.
pub open spec fn ascii_lower(s: Seq<char>) -> Seq<char> {
    Seq::new(s.len(), |i: int| lower_char(s[i]))
}

/// The character of the decimal digit `d`.
pub open spec fn digit_char(d: nat) -> char {
    (48 + d) as u8 as char
}

/// `n` in decimal notation, without leading zeros.
pub open spec fn decimal(n: nat) -> Seq<char>
    decreases n,
{
    if n < 10 {
        seq![digit_char(n)]
    } else {
        decimal(n / 10).push(digit_char(n % 10))
    }
}

/// The index of the first `c` in `s`, or `s.len()` if there is none.
pub open spec fn first_index(s: Seq<char>, c: char) -> int
    decreases s.len(),
{
    if s.len() == 0 {
        0
    } else if s[0] == c {
        0
    } else {
        1 + first_index(s.drop_first(), c)
    }
}

/// `first_index` is the index of the first `c`, and the length where there
/// is no `c`.
pub proof fn lemma_first_index(s: Seq<char>, c: char)
    ensures
        0 <= first_index(s, c) <= s.len(),
        first_index(s, c) < s.len() ==> s[first_index(s, c)] == c,
        forall|i: int| 0 <= i < first_index(s, c) ==> s[i] != c,
    decreases s.len(),
{
    if s.len() > 0 && s[0] != c {
        let rest = s.drop_first();
        lemma_first_index(rest, c);
        assert forall|i: int| 0 <= i < first_index(s, c) implies s[i] != c by {
            if i > 0 {
                assert(s[i] == rest[i - 1]);
            }
        }
    }
}

/// An occurrence in a suffix of `s` is an occurrence in `s`, and back.
pub proof fn lemma_occurs_in_suffix(s: Seq<char>, pat: Seq<char>, n: int, i: int)
    requires
        0 <= n <= s.len(),
        0 <= i,
    ensures
        occurs_at(s.skip(n), pat, i) == occurs_at(s, pat, n + i),
{
    if i + pat.len() <= s.len() - n {
        assert(s.skip(n).subrange(i, i + pat.len()) =~= s.subrange(n + i, n + i + pat.len()));
    }
}

/// The text before the first occurrence is kept: where `pat` occurs at no
/// index before `p`, replacing leaves the first `p` characters alone and
/// goes on behind them.
pub proof fn lemma_replace_keeps_prefix(s: Seq<char>, pat: Seq<char>, to: Seq<char>, p: int)
    requires
        0 <= p <= s.len(),
        forall|q: int| 0 <= q < p ==> !occurs_at(s, pat, q),
    ensures
        replace_all(s, pat, to) == s.take(p) + replace_all(s.skip(p), pat, to),
    decreases p,
{
    if p == 0 {
        assert(s.skip(0) =~= s);
        assert(s.take(0) + replace_all(s, pat, to) =~= replace_all(s, pat, to));
    } else if pat.len() == 0 {
        assert(s.take(p) + s.skip(p) =~= s);
    } else if s.len() < pat.len() {
        assert(s.take(p) + s.skip(p) =~= s);
    } else {
        assert(!occurs_at(s, pat, 0));
        let rest = s.skip(1);
        assert forall|q: int| 0 <= q < p - 1 implies !occurs_at(rest, pat, q) by {
            lemma_occurs_in_suffix(s, pat, 1, q);
        }
        lemma_replace_keeps_prefix(rest, pat, to, p - 1);
        assert(rest.skip(p - 1) =~= s.skip(p));
        assert(seq![s[0]] + (rest.take(p - 1) + replace_all(s.skip(p), pat, to)) =~= s.take(p)
            + replace_all(s.skip(p), pat, to));
    }
}

/// Replacing a pattern that does not occur changes nothing.
pub proof fn lemma_replace_absent(s: Seq<char>, pat: Seq<char>, to: Seq<char>)
    requires
        !contains(s, pat),
    ensures
        replace_all(s, pat, to) == s,
{
    lemma_replace_keeps_prefix(s, pat, to, s.len() as int);
    assert(s.take(s.len() as int) + s.skip(s.len() as int) =~= s);
    assert(s.skip(s.len() as int) =~= Seq::<char>::empty());
}

/// The replacement stands in the place of the first occurrence: before it
/// the text is kept, behind it replacing goes on.
pub proof fn lemma_replace_first(s: Seq<char>, pat: Seq<char>, to: Seq<char>, p: int)
    requires
        pat.len() > 0,
        occurs_at(s, pat, p),
        forall|q: int| 0 <= q < p ==> !occurs_at(s, pat, q),
    ensures
        replace_all(s, pat, to) == s.take(p) + to + replace_all(s.skip(p + pat.len()), pat, to),
{
    lemma_replace_keeps_prefix(s, pat, to, p);
    let rest = s.skip(p);
    lemma_occurs_in_suffix(s, pat, p, 0);
    assert(rest.skip(pat.len() as int) =~= s.skip(p + pat.len()));
    assert(s.take(p) + (to + replace_all(s.skip(p + pat.len()), pat, to)) =~= s.take(p) + to
        + replace_all(s.skip(p + pat.len()), pat, to));
}

/// Where `pat` occurs, the replacement occurs in the result.
pub proof fn lemma_replacement_occurs(s: Seq<char>, pat: Seq<char>, to: Seq<char>)
    requires
        pat.len() > 0,
        contains(s, pat),
    ensures
        contains(replace_all(s, pat, to), to),
    decreases s.len(),
{
    let r = replace_all(s, pat, to);
    let q = choose|q: int| occurs_at(s, pat, q);
    if s.subrange(0, pat.len() as int) == pat {
        assert(r.subrange(0, to.len() as int) =~= to);
        assert(occurs_at(r, to, 0));
    } else {
        let rest = s.skip(1);
        let rr = replace_all(rest, pat, to);
        lemma_occurs_in_suffix(s, pat, 1, q - 1);
        assert(occurs_at(rest, pat, q - 1));
        lemma_replacement_occurs(rest, pat, to);
        let q2 = choose|q2: int| occurs_at(rr, to, q2);
        assert(r.subrange(q2 + 1, q2 + 1 + to.len()) =~= rr.subrange(q2, q2 + to.len()));
        assert(occurs_at(r, to, q2 + 1));
    }
}

/// The characters of `s`, in order.
pub fn to_chars(s: &str) -> (v: Vec<char>)
    ensures
        v@ == s@,
{
    let mut v: Vec<char> = Vec::new();
    for c in it: s.chars()
        invariant
            it.seq() == s@,
            v@ == s@.take(it.index() as int),
    {
        v.push(c);
        assert(s@.take(it.index() + 1) =~= s@.take(it.index() as int).push(c));
    }
    assert(s@.take(s@.len() as int) =~= s@);
    v
}

/// The string made of the characters of `v`, in order.
pub fn from_chars(v: &Vec<char>) -> (s: String)
    ensures
        s@ == v@,
{
    let mut s = String::new();
    let mut i: usize = 0;
    while i < v.len()
        invariant
            i <= v.len(),
            s@ == v@.take(i as int),
        decreases v.len() - i,
    {
        s.push(v[i]);
        assert(v@.take(i + 1) =~= v@.take(i as int).push(v@[i as int]));
        i += 1;
    }
    assert(v@.take(v@.len() as int) =~= v@);
    s
}

/// Whether `pat` stands in `s` at index `i`.
pub fn matches_at(s: &Vec<char>, pat: &Vec<char>, i: usize) -> (r: bool)
    requires
        i + pat.len() <= s.len(),
    ensures
        r == occurs_at(s@, pat@, i as int),
{
    let mut j: usize = 0;
    while j < pat.len()
        invariant
            j <= pat.len(),
            i + pat.len() <= s.len(),
            forall|k: int| 0 <= k < j ==> s@[i + k] == pat@[k],
        decreases pat.len() - j,
    {
        if s[i + j] != pat[j] {
            assert(s@.subrange(i as int, i + pat.len())[j as int] != pat@[j as int]);
            return false;
        }
        j += 1;
    }
    assert(s@.subrange(i as int, i + pat.len()) =~= pat@);
    true
}

/// Replaces every occurrence of `pat` in `s` by `to`.
pub fn replace_chars(s: &Vec<char>, pat: &Vec<char>, to: &Vec<char>) -> (r: Vec<char>)
    ensures
        r@ == replace_all(s@, pat@, to@),
{
    let n = s.len();
    let m = pat.len();
    let mut out: Vec<char> = Vec::new();
    let mut i: usize = 0;
    assert(s@.skip(0) =~= s@);
    if m > 0 {
        while n - i >= m
            invariant
                m == pat.len(),
                n == s.len(),
                m > 0,
                i <= n,
                out@ + replace_all(s@.skip(i as int), pat@, to@) == replace_all(s@, pat@, to@),
            decreases n - i,
        {
            let ghost rest = s@.skip(i as int);
            if matches_at(s, pat, i) {
                assert(rest.subrange(0, m as int) =~= s@.subrange(i as int, i + m));
                assert(rest.skip(m as int) =~= s@.skip(i + m));
                let ghost before = out@;
                out.extend_from_slice(to.as_slice());
                assert(out@ + replace_all(s@.skip(i + m), pat@, to@) =~= before + (to@
                    + replace_all(rest.skip(m as int), pat@, to@)));
                i += m;
            } else {
                assert(rest.subrange(0, m as int) =~= s@.subrange(i as int, i + m));
                assert(rest.skip(1) =~= s@.skip(i + 1));
                let ghost before = out@;
                out.push(s[i]);
                assert(out@ + replace_all(s@.skip(i + 1), pat@, to@) =~= before + (seq![rest[0]]
                    + replace_all(rest.skip(1), pat@, to@)));
                i += 1;
            }
        }
    }
    while i < n
        invariant
            n == s.len(),
            i <= n,
            out@ + s@.skip(i as int) == replace_all(s@, pat@, to@),
        decreases n - i,
    {
        let ghost prior = out@;
        out.push(s[i]);
        assert(out@ + s@.skip(i + 1) =~= prior + s@.skip(i as int));
        i += 1;
    }
    assert(out@ + s@.skip(n as int) =~= out@);
    out
}

/// Replaces every occurrence of `pat` in `s` by `to`.
pub fn replace_text(s: &str, pat: &str, to: &str) -> (r: String)
    ensures
        r@ == replace_all(s@, pat@, to@),
{
    let source = to_chars(s);
    let pattern = to_chars(pat);
    let with = to_chars(to);
    let replaced = replace_chars(&source, &pattern, &with);
    from_chars(&replaced)
}

/// The lower-case form of an ASCII upper-case letter; any other character
/// is returned as it is.
pub fn lower(c: char) -> (r: char)
    ensures
        r == lower_char(c),
{
    if 'A' <= c && c <= 'Z' {
        ((c as u8) + 32) as char
    } else {
        c
    }
}

/// `s` with each ASCII upper-case letter in lower case.
pub fn lower_text(s: &str) -> (r: String)
    ensures
        r@ == ascii_lower(s@),
{
    let mut out = String::new();
    for c in it: s.chars()
        invariant
            it.seq() == s@,
            out@ == ascii_lower(s@).take(it.index() as int),
    {
        out.push(lower(c));
        assert(ascii_lower(s@).take(it.index() + 1) =~= ascii_lower(s@).take(
            it.index() as int,
        ).push(lower_char(c)));
    }
    assert(ascii_lower(s@).take(s@.len() as int) =~= ascii_lower(s@));
    out
}

/// `n` in decimal notation, without leading zeros.
pub fn decimal_text(n: u64) -> (r: String)
    ensures
        r@ == decimal(n as nat),
    decreases n,
{
    let d: u8 = (n % 10) as u8;
    let digit = (48 + d) as char;
    if n < 10 {
        let mut out = String::new();
        out.push(digit);
        assert(out@ =~= seq![digit_char(n as nat)]);
        out
    } else {
        let mut out = decimal_text(n / 10);
        out.push(digit);
        out
    }
}

} // verus!
