//! What replacing the placeholder of one name does to a template: which
//! placeholders it removes, which it leaves, and when two replacements can
//! change places.

use crate::template::{
    brace_free, close_free, closes_between, no_nested_open, open_free, placeholder,
};
use crate::text::{
    contains, first_index, lemma_first_index, lemma_occurs_in_suffix,
    lemma_replace_keeps_prefix, occurs_at, replace_all,
};
use vstd::prelude::*;

verus! {

/// A placeholder is an opening brace, the name, and a closing brace.
pub proof fn lemma_placeholder_shape(key: Seq<char>)
    ensures
        placeholder(key).len() == key.len() + 2,
        placeholder(key)[0] == '{',
        placeholder(key)[key.len() as int + 1] == '}',
        forall|i: int| 0 <= i < key.len() ==> placeholder(key)[i + 1] == key[i],
{
}

/// What holds of the characters of `s` where a placeholder occurs at `q`.
proof fn lemma_occurrence_shape(s: Seq<char>, key: Seq<char>, q: int)
    requires
        occurs_at(s, placeholder(key), q),
    ensures
        q + key.len() + 2 <= s.len(),
        s[q] == '{',
        s[q + key.len() + 1] == '}',
        forall|i: int| 0 <= i < key.len() ==> s[q + i + 1] == key[i],
{
    let pat = placeholder(key);
    lemma_placeholder_shape(key);
    let part = s.subrange(q, q + pat.len());
    assert(part[0] == pat[0]);
    assert(part[key.len() as int + 1] == pat[key.len() as int + 1]);
    assert forall|i: int| 0 <= i < key.len() implies s[q + i + 1] == key[i] by {
        assert(part[i + 1] == pat[i + 1]);
    }
}

/// A placeholder occurs at `q` where the characters of `s` are those of it.
proof fn lemma_occurrence_from_shape(s: Seq<char>, key: Seq<char>, q: int)
    requires
        0 <= q,
        q + key.len() + 2 <= s.len(),
        s[q] == '{',
        s[q + key.len() + 1] == '}',
        forall|i: int| 0 <= i < key.len() ==> s[q + i + 1] == key[i],
    ensures
        occurs_at(s, placeholder(key), q),
{
    let pat = placeholder(key);
    lemma_placeholder_shape(key);
    let part = s.subrange(q, q + pat.len());
    assert forall|x: int| 0 <= x < pat.len() implies part[x] == pat[x] by {
        if 0 < x && x < key.len() + 1 {
            assert(s[q + (x - 1) + 1] == key[x - 1]);
        }
    }
    assert(part =~= pat);
}

/// A suffix of a template without nested placeholders has none.
proof fn lemma_nesting_suffix(s: Seq<char>, n: int)
    requires
        no_nested_open(s),
        0 <= n <= s.len(),
    ensures
        no_nested_open(s.skip(n)),
{
    let t = s.skip(n);
    assert forall|i: int, j: int|
        0 <= i < j < t.len() && t[i] == '{' && t[j] == '{' implies #[trigger] closes_between(
        t,
        i,
        j,
    ) by {
        assert(closes_between(s, n + i, n + j));
        let m = choose|m: int| n + i < m < n + j && #[trigger] s[m] == '}';
        assert(t[m - n] == '}');
    }
}

/// Behind an opening brace at the start of `s`, replacing a placeholder
/// keeps the text up to the next opening brace, and a closing brace stands
/// before that one.
proof fn lemma_behind_opening(s: Seq<char>, key: Seq<char>, to: Seq<char>) -> (n: int)
    requires
        no_nested_open(s),
        s.len() > 0,
        s[0] == '{',
    ensures
        0 <= n <= s.len() - 1,
        forall|i: int| 1 <= i <= n ==> s[i] != '{',
        replace_all(s.skip(1), placeholder(key), to) == s.skip(1).take(n) + replace_all(
            s.skip(1).skip(n),
            placeholder(key),
            to,
        ),
        n < s.len() - 1 ==> s[n + 1] == '{' && closes_between(s, 0, n + 1),
{
    let rest = s.skip(1);
    let pat = placeholder(key);
    let n = first_index(rest, '{');
    lemma_first_index(rest, '{');
    assert forall|q: int| 0 <= q < n implies !occurs_at(rest, pat, q) by {
        if occurs_at(rest, pat, q) {
            lemma_occurrence_shape(rest, key, q);
        }
    }
    lemma_replace_keeps_prefix(rest, pat, to, n);
    assert forall|i: int| 1 <= i <= n implies s[i] != '{' by {
        assert(rest[i - 1] == s[i]);
    }
    if n < s.len() - 1 {
        assert(rest[n] == s[n + 1]);
    }
    n
}

/// Replacing a placeholder by a value without an opening brace keeps the
/// template free of nested placeholders.
pub proof fn lemma_nesting_kept(s: Seq<char>, key: Seq<char>, to: Seq<char>)
    requires
        no_nested_open(s),
        open_free(to),
    ensures
        no_nested_open(replace_all(s, placeholder(key), to)),
    decreases s.len(),
{
    let pat = placeholder(key);
    let r = replace_all(s, pat, to);
    lemma_placeholder_shape(key);
    if s.len() < pat.len() {
    } else if s.subrange(0, pat.len() as int) == pat {
        let rest = s.skip(pat.len() as int);
        let rr = replace_all(rest, pat, to);
        lemma_nesting_suffix(s, pat.len() as int);
        lemma_nesting_kept(rest, key, to);
        assert forall|i: int, j: int|
            0 <= i < j < r.len() && r[i] == '{' && r[j] == '{' implies #[trigger] closes_between(
            r,
            i,
            j,
        ) by {
            assert(i >= to.len() && j >= to.len());
            assert(rr[i - to.len()] == '{' && rr[j - to.len()] == '{');
            assert(closes_between(rr, i - to.len(), j - to.len()));
            let m = choose|m: int| i - to.len() < m < j - to.len() && #[trigger] rr[m] == '}';
            assert(r[m + to.len()] == '}');
        }
    } else {
        let rest = s.skip(1);
        let rr = replace_all(rest, pat, to);
        lemma_nesting_suffix(s, 1);
        lemma_nesting_kept(rest, key, to);
        assert forall|i: int, j: int|
            0 <= i < j < r.len() && r[i] == '{' && r[j] == '{' implies #[trigger] closes_between(
            r,
            i,
            j,
        ) by {
            if i > 0 {
                assert(rr[i - 1] == '{' && rr[j - 1] == '{');
                assert(closes_between(rr, i - 1, j - 1));
                let m = choose|m: int| i - 1 < m < j - 1 && #[trigger] rr[m] == '}';
                assert(r[m + 1] == '}');
            } else {
                let n = lemma_behind_opening(s, key, to);
                let tail = replace_all(rest.skip(n), pat, to);
                assert(rr == rest.take(n) + tail);
                if j - 1 < n {
                    assert(rr[j - 1] == rest.take(n)[j - 1]);
                    assert(rest[j - 1] == s[j]);
                }
                assert(j - 1 >= n);
                if n < s.len() - 1 {
                    let m = choose|m: int| 0 < m < n + 1 && #[trigger] s[m] == '}';
                    assert(rr[m - 1] == rest.take(n)[m - 1]);
                    assert(rest[m - 1] == s[m]);
                    assert(r[m] == '}');
                } else {
                    assert(rest.skip(n) =~= Seq::<char>::empty());
                    assert(rr =~= rest);
                    assert(rest[j - 1] == s[j]);
                }
            }
        }
    }
}

/// Two placeholders with names without braces that occur at one index
/// have the same name.
proof fn lemma_same_start(s: Seq<char>, key: Seq<char>, other: Seq<char>, q: int)
    requires
        brace_free(key),
        brace_free(other),
        occurs_at(s, placeholder(key), q),
        occurs_at(s, placeholder(other), q),
    ensures
        key == other,
{
    lemma_occurrence_shape(s, key, q);
    lemma_occurrence_shape(s, other, q);
    if key.len() < other.len() {
        assert(s[q + key.len() + 1] == other[key.len() as int]);
    } else if other.len() < key.len() {
        assert(s[q + other.len() + 1] == key[other.len() as int]);
    } else {
        assert forall|i: int| 0 <= i < key.len() implies key[i] == other[i] by {
            assert(s[q + i + 1] == key[i]);
            assert(s[q + i + 1] == other[i]);
        }
        assert(key =~= other);
    }
}

/// After a placeholder was replaced by a value without an opening brace,
/// it occurs no more; and a placeholder that did not occur before does not
/// occur after. The name of the placeholder in question holds no closing
/// brace.
pub proof fn lemma_placeholder_gone(s: Seq<char>, key: Seq<char>, to: Seq<char>, other: Seq<char>)
    requires
        no_nested_open(s),
        open_free(to),
        close_free(other),
        other == key || !contains(s, placeholder(other)),
    ensures
        !contains(replace_all(s, placeholder(key), to), placeholder(other)),
    decreases s.len(),
{
    let pat = placeholder(key);
    let po = placeholder(other);
    let r = replace_all(s, pat, to);
    lemma_placeholder_shape(key);
    lemma_placeholder_shape(other);
    if s.len() < pat.len() {
        assert forall|q: int| !occurs_at(r, po, q) by {
            if other != key {
                assert(!occurs_at(s, po, q));
            }
        }
    } else if s.subrange(0, pat.len() as int) == pat {
        let rest = s.skip(pat.len() as int);
        let rr = replace_all(rest, pat, to);
        lemma_nesting_suffix(s, pat.len() as int);
        if other != key {
            assert forall|q: int| !occurs_at(rest, po, q) by {
                if 0 <= q {
                    lemma_occurs_in_suffix(s, po, pat.len() as int, q);
                    assert(!occurs_at(s, po, pat.len() + q));
                }
            }
        }
        lemma_placeholder_gone(rest, key, to, other);
        assert forall|q: int| !occurs_at(r, po, q) by {
            if occurs_at(r, po, q) {
                lemma_occurrence_shape(r, other, q);
                if q < to.len() {
                    assert(r[q] == to[q]);
                } else {
                    assert(rr.subrange(q - to.len(), q - to.len() + po.len()) =~= r.subrange(
                        q,
                        q + po.len(),
                    ));
                    assert(occurs_at(rr, po, q - to.len()));
                }
            }
        }
    } else {
        let rest = s.skip(1);
        let rr = replace_all(rest, pat, to);
        lemma_nesting_suffix(s, 1);
        if other != key {
            assert forall|q: int| !occurs_at(rest, po, q) by {
                if 0 <= q {
                    lemma_occurs_in_suffix(s, po, 1, q);
                    assert(!occurs_at(s, po, 1 + q));
                }
            }
        }
        lemma_placeholder_gone(rest, key, to, other);
        assert(!occurs_at(s, po, 0)) by {
            if other == key {
                assert(!occurs_at(s, pat, 0));
            }
        }
        assert forall|q: int| !occurs_at(r, po, q) by {
            if occurs_at(r, po, q) {
                if q >= 1 {
                    assert(rr.subrange(q - 1, q - 1 + po.len()) =~= r.subrange(q, q + po.len()));
                    assert(occurs_at(rr, po, q - 1));
                } else {
                    lemma_start_reflects(s, key, to, other);
                }
            }
        }
    }
}

/// Replacing one placeholder leaves a placeholder of another name where it
/// is.
pub proof fn lemma_other_placeholder_stays(
    s: Seq<char>,
    key: Seq<char>,
    to: Seq<char>,
    other: Seq<char>,
)
    requires
        brace_free(key),
        brace_free(other),
        other != key,
        contains(s, placeholder(other)),
    ensures
        contains(replace_all(s, placeholder(key), to), placeholder(other)),
    decreases s.len(),
{
    let pat = placeholder(key);
    let po = placeholder(other);
    let r = replace_all(s, pat, to);
    lemma_placeholder_shape(key);
    lemma_placeholder_shape(other);
    let q = choose|q: int| occurs_at(s, po, q);
    lemma_occurrence_shape(s, other, q);
    if s.len() < pat.len() {
        assert(occurs_at(r, po, q));
    } else if s.subrange(0, pat.len() as int) == pat {
        let rest = s.skip(pat.len() as int);
        let rr = replace_all(rest, pat, to);
        assert(occurs_at(s, pat, 0));
        lemma_occurrence_shape(s, key, 0);
        if q == 0 {
            lemma_same_start(s, key, other, 0);
        } else if q < pat.len() {
            if q < key.len() + 1 {
                assert(s[0 + (q - 1) + 1] == key[q - 1]);
            }
        }
        assert(q >= pat.len());
        lemma_occurs_in_suffix(s, po, pat.len() as int, q - pat.len());
        assert(occurs_at(rest, po, q - pat.len()));
        lemma_other_placeholder_stays(rest, key, to, other);
        let q2 = choose|q2: int| occurs_at(rr, po, q2);
        assert(r.subrange(q2 + to.len(), q2 + to.len() + po.len()) =~= rr.subrange(
            q2,
            q2 + po.len(),
        ));
        assert(occurs_at(r, po, q2 + to.len()));
    } else {
        let rest = s.skip(1);
        let rr = replace_all(rest, pat, to);
        if q >= 1 {
            lemma_occurs_in_suffix(s, po, 1, q - 1);
            assert(occurs_at(rest, po, q - 1));
            lemma_other_placeholder_stays(rest, key, to, other);
            let q2 = choose|q2: int| occurs_at(rr, po, q2);
            assert(r.subrange(q2 + 1, q2 + 1 + po.len()) =~= rr.subrange(q2, q2 + po.len()));
            assert(occurs_at(r, po, q2 + 1));
        } else {
            let w = other.len() as int;
            assert forall|x: int| 0 <= x < w + 1 implies !occurs_at(rest, pat, x) by {
                if occurs_at(rest, pat, x) {
                    lemma_occurrence_shape(rest, key, x);
                    assert(rest[x] == s[x + 1]);
                    if x < w {
                        assert(s[0 + x + 1] == other[x]);
                    }
                }
            }
            lemma_replace_keeps_prefix(rest, pat, to, w + 1);
            let tail = replace_all(rest.skip(w + 1), pat, to);
            assert(rr == rest.take(w + 1) + tail);
            assert forall|i: int| 0 <= i < w implies r[0 + i + 1] == other[i] by {
                assert(r[i + 1] == rr[i]);
                assert(rr[i] == rest.take(w + 1)[i]);
                assert(rest[i] == s[i + 1]);
                assert(s[0 + i + 1] == other[i]);
            }
            assert(r[w + 1] == '}') by {
                assert(r[w + 1] == rr[w]);
                assert(rr[w] == rest.take(w + 1)[w]);
                assert(rest[w] == s[w + 1]);
            }
            lemma_occurrence_from_shape(r, other, 0);
        }
    }
}

/// Where `pat` does not occur at the start of `s`, replacing keeps the
/// first character and goes on behind it.
proof fn lemma_replace_step(s: Seq<char>, pat: Seq<char>, to: Seq<char>)
    requires
        s.len() > 0,
        !occurs_at(s, pat, 0),
    ensures
        replace_all(s, pat, to) == seq![s[0]] + replace_all(s.skip(1), pat, to),
{
    lemma_replace_keeps_prefix(s, pat, to, 1);
    assert(s.take(1) =~= seq![s[0]]);
}

/// Replacing a placeholder passes over a text without an opening brace in
/// front.
proof fn lemma_replace_past_plain(front: Seq<char>, s: Seq<char>, key: Seq<char>, to: Seq<char>)
    requires
        open_free(front),
    ensures
        replace_all(front + s, placeholder(key), to) == front + replace_all(
            s,
            placeholder(key),
            to,
        ),
{
    let whole = front + s;
    let n = front.len() as int;
    assert forall|q: int| 0 <= q < n implies !occurs_at(whole, placeholder(key), q) by {
        if occurs_at(whole, placeholder(key), q) {
            lemma_occurrence_shape(whole, key, q);
            assert(whole[q] == front[q]);
        }
    }
    lemma_replace_keeps_prefix(whole, placeholder(key), to, n);
    assert(whole.take(n) =~= front);
    assert(whole.skip(n) =~= s);
}

/// Replacing a placeholder passes over a placeholder of another name in
/// front.
proof fn lemma_replace_past_placeholder(
    s: Seq<char>,
    front: Seq<char>,
    key: Seq<char>,
    to: Seq<char>,
)
    requires
        brace_free(front),
        brace_free(key),
        front != key,
        occurs_at(s, placeholder(front), 0),
    ensures
        replace_all(s, placeholder(key), to) == placeholder(front) + replace_all(
            s.skip(placeholder(front).len() as int),
            placeholder(key),
            to,
        ),
{
    let pf = placeholder(front);
    let n = pf.len() as int;
    lemma_placeholder_shape(front);
    lemma_occurrence_shape(s, front, 0);
    assert forall|q: int| 0 <= q < n implies !occurs_at(s, placeholder(key), q) by {
        if occurs_at(s, placeholder(key), q) {
            lemma_occurrence_shape(s, key, q);
            if q == 0 {
                lemma_same_start(s, front, key, 0);
            } else if q < front.len() + 1 {
                assert(s[0 + (q - 1) + 1] == front[q - 1]);
            }
        }
    }
    lemma_replace_keeps_prefix(s, placeholder(key), to, n);
    assert(s.take(n) =~= s.subrange(0, n));
}

/// Where a placeholder stands at the start of what replacing makes of `s`
/// behind its first character, it stands at the start of `s`.
proof fn lemma_start_reflects(s: Seq<char>, key: Seq<char>, to: Seq<char>, other: Seq<char>)
    requires
        no_nested_open(s),
        close_free(other),
        s.len() > 0,
        occurs_at(seq![s[0]] + replace_all(s.skip(1), placeholder(key), to), placeholder(other), 0),
    ensures
        occurs_at(s, placeholder(other), 0),
{
    let pat = placeholder(key);
    let rest = s.skip(1);
    let rr = replace_all(rest, pat, to);
    let r = seq![s[0]] + rr;
    lemma_placeholder_shape(other);
    lemma_occurrence_shape(r, other, 0);
    let n = lemma_behind_opening(s, key, to);
    let tail = replace_all(rest.skip(n), pat, to);
    assert(rr == rest.take(n) + tail);
    let w = other.len() as int;
    if n <= w {
        if n < s.len() - 1 {
            let m = choose|m: int| 0 < m < n + 1 && #[trigger] s[m] == '}';
            assert(rr[m - 1] == rest.take(n)[m - 1]);
            assert(rest[m - 1] == s[m]);
            assert(r[m] == rr[m - 1]);
            assert(r[0 + (m - 1) + 1] == other[m - 1]);
        } else {
            assert(rest.skip(n) =~= Seq::<char>::empty());
            assert(rr =~= rest);
        }
    }
    assert(n >= w + 1);
    assert forall|i: int| 0 <= i < w implies s[0 + i + 1] == other[i] by {
        assert(r[0 + i + 1] == other[i]);
        assert(r[i + 1] == rr[i]);
        assert(rr[i] == rest.take(n)[i]);
        assert(rest[i] == s[i + 1]);
    }
    assert(s[w + 1] == '}') by {
        assert(r[w + 1] == rr[w]);
        assert(rr[w] == rest.take(n)[w]);
        assert(rest[w] == s[w + 1]);
    }
    lemma_occurrence_from_shape(s, other, 0);
}

/// Two parameters of different names can be resolved in either order.
///
/// This holds of a template in which no placeholder is opened inside
/// another, where the names hold no brace and the values no opening brace.
pub proof fn lemma_replace_commutes(
    s: Seq<char>,
    key1: Seq<char>,
    value1: Seq<char>,
    key2: Seq<char>,
    value2: Seq<char>,
)
    requires
        no_nested_open(s),
        brace_free(key1),
        brace_free(key2),
        open_free(value1),
        open_free(value2),
        key1 != key2,
    ensures
        replace_all(replace_all(s, placeholder(key1), value1), placeholder(key2), value2)
            == replace_all(replace_all(s, placeholder(key2), value2), placeholder(key1), value1),
    decreases s.len(),
{
    let p1 = placeholder(key1);
    let p2 = placeholder(key2);
    lemma_placeholder_shape(key1);
    lemma_placeholder_shape(key2);
    if s.len() == 0 {
    } else if occurs_at(s, p1, 0) {
        let rest = s.skip(p1.len() as int);
        lemma_nesting_suffix(s, p1.len() as int);
        lemma_replace_commutes(rest, key1, value1, key2, value2);
        assert(s.subrange(0, p1.len() as int) == p1);
        let r1 = replace_all(rest, p1, value1);
        lemma_replace_past_plain(value1, r1, key2, value2);
        lemma_replace_past_placeholder(s, key1, key2, value2);
        let r2 = replace_all(rest, p2, value2);
        let t = p1 + r2;
        assert(t.subrange(0, p1.len() as int) =~= p1);
        assert(t.skip(p1.len() as int) =~= r2);
    } else if occurs_at(s, p2, 0) {
        let rest = s.skip(p2.len() as int);
        lemma_nesting_suffix(s, p2.len() as int);
        lemma_replace_commutes(rest, key1, value1, key2, value2);
        assert(s.subrange(0, p2.len() as int) == p2);
        let r2 = replace_all(rest, p2, value2);
        lemma_replace_past_plain(value2, r2, key1, value1);
        lemma_replace_past_placeholder(s, key2, key1, value1);
        let r1 = replace_all(rest, p1, value1);
        let t = p2 + r1;
        assert(t.subrange(0, p2.len() as int) =~= p2);
        assert(t.skip(p2.len() as int) =~= r1);
    } else {
        let rest = s.skip(1);
        lemma_nesting_suffix(s, 1);
        lemma_replace_commutes(rest, key1, value1, key2, value2);
        lemma_replace_step(s, p1, value1);
        lemma_replace_step(s, p2, value2);
        let a = seq![s[0]] + replace_all(rest, p1, value1);
        let b = seq![s[0]] + replace_all(rest, p2, value2);
        if occurs_at(a, p2, 0) {
            lemma_start_reflects(s, key1, value1, key2);
        }
        if occurs_at(b, p1, 0) {
            lemma_start_reflects(s, key2, value2, key1);
        }
        lemma_replace_step(a, p2, value2);
        lemma_replace_step(b, p1, value1);
        assert(a.skip(1) =~= replace_all(rest, p1, value1));
        assert(b.skip(1) =~= replace_all(rest, p2, value2));
    }
}

} // verus!
