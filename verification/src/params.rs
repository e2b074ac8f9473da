//! Named parameters: an association list in which no name occurs twice and
//! the last value written for a name is the one kept.

use vstd::prelude::*;

verus! {

/// The index of the first entry of `s` named `key`, or `s.len()` if there
/// is none.
pub open spec fn position(s: Seq<(Seq<char>, Seq<char>)>, key: Seq<char>) -> int
    decreases s.len(),
{
    if s.len() == 0 {
        0
    } else if s[0].0 == key {
        0
    } else {
        1 + position(s.drop_first(), key)
    }
}

/// The value that `s` holds for `key`.
pub open spec fn lookup(s: Seq<(Seq<char>, Seq<char>)>, key: Seq<char>) -> Option<Seq<char>> {
    if position(s, key) < s.len() {
        Some(s[position(s, key)].1)
    } else {
        None
    }
}

/// `s` after `value` was written for `key`: the entry named `key` holds the
/// new value in its old place, or a new entry stands at the end.
pub open spec fn inserted(
    s: Seq<(Seq<char>, Seq<char>)>,
    key: Seq<char>,
    value: Seq<char>,
) -> Seq<(Seq<char>, Seq<char>)> {
    if position(s, key) < s.len() {
        s.update(position(s, key), (key, value))
    } else {
        s.push((key, value))
    }
}

/// No two entries of `s` have the same name.
pub open spec fn distinct_keys(s: Seq<(Seq<char>, Seq<char>)>) -> bool {
    forall|i: int, j: int| 0 <= i < j < s.len() ==> s[i].0 != s[j].0
}

/// `position` is the index of the first entry with the name, and the length
/// where no entry has it.
pub proof fn lemma_position(s: Seq<(Seq<char>, Seq<char>)>, key: Seq<char>)
    ensures
        0 <= position(s, key) <= s.len(),
        position(s, key) < s.len() ==> s[position(s, key)].0 == key,
        forall|i: int| 0 <= i < position(s, key) ==> s[i].0 != key,
    decreases s.len(),
{
    if s.len() > 0 && s[0].0 != key {
        let rest = s.drop_first();
        lemma_position(rest, key);
        assert forall|i: int| 0 <= i < position(s, key) implies s[i].0 != key by {
            if i > 0 {
                assert(s[i] == rest[i - 1]);
            }
        }
    }
}

/// An index before which no entry is named `key`, and which is the length
/// or that of an entry named `key`, is `position`.
pub proof fn lemma_position_is(s: Seq<(Seq<char>, Seq<char>)>, key: Seq<char>, p: int)
    requires
        0 <= p <= s.len(),
        p < s.len() ==> s[p].0 == key,
        forall|i: int| 0 <= i < p ==> s[i].0 != key,
    ensures
        position(s, key) == p,
{
    lemma_position(s, key);
}

/// Writing a value keeps the names distinct.
pub proof fn lemma_inserted_distinct(
    s: Seq<(Seq<char>, Seq<char>)>,
    key: Seq<char>,
    value: Seq<char>,
)
    requires
        distinct_keys(s),
    ensures
        distinct_keys(inserted(s, key, value)),
{
    lemma_position(s, key);
    let t = inserted(s, key, value);
    let p = position(s, key);
    assert forall|i: int, j: int| 0 <= i < j < t.len() implies t[i].0 != t[j].0 by {
        if p < s.len() {
            assert(t[i].0 == s[i].0 && t[j].0 == s[j].0);
        } else if j < s.len() {
            assert(t[i] == s[i] && t[j] == s[j]);
        } else {
            assert(t[i] == s[i]);
        }
    }
}

/// The last value written for a name is the one found, and the values of
/// the other names stay.
pub proof fn lemma_inserted_lookup(
    s: Seq<(Seq<char>, Seq<char>)>,
    key: Seq<char>,
    value: Seq<char>,
    other: Seq<char>,
)
    ensures
        lookup(inserted(s, key, value), key) == Some(value),
        other != key ==> lookup(inserted(s, key, value), other) == lookup(s, other),
{
    let t = inserted(s, key, value);
    let p = position(s, key);
    lemma_position(s, key);
    assert(t[p] == (key, value));
    assert forall|i: int| 0 <= i < p implies t[i].0 != key by {
        assert(t[i] == s[i]);
    }
    lemma_position_is(t, key, p);
    if other != key {
        let q = position(s, other);
        lemma_position(s, other);
        assert forall|i: int| 0 <= i < q implies t[i].0 != other by {
            if i != p {
                assert(t[i] == s[i]);
            }
        }
        if q < s.len() {
            assert(q != p);
            assert(t[q] == s[q]);
            lemma_position_is(t, other, q);
        } else {
            assert(forall|i: int| 0 <= i < t.len() ==> t[i].0 != other);
            lemma_position_is(t, other, t.len() as int);
        }
    }
}

/// Two writes under different names give every name the same value in
/// either order.
pub proof fn lemma_inserted_commutes(
    s: Seq<(Seq<char>, Seq<char>)>,
    key1: Seq<char>,
    value1: Seq<char>,
    key2: Seq<char>,
    value2: Seq<char>,
    other: Seq<char>,
)
    requires
        key1 != key2,
    ensures
        lookup(inserted(inserted(s, key1, value1), key2, value2), other) == lookup(
            inserted(inserted(s, key2, value2), key1, value1),
            other,
        ),
{
    let a = inserted(s, key1, value1);
    let b = inserted(s, key2, value2);
    lemma_inserted_lookup(s, key1, value1, other);
    lemma_inserted_lookup(s, key2, value2, other);
    lemma_inserted_lookup(a, key2, value2, other);
    lemma_inserted_lookup(b, key1, value1, other);
    lemma_inserted_lookup(s, key1, value1, key2);
    lemma_inserted_lookup(s, key2, value2, key1);
}

/// The names and values of `v` as sequences of characters.
pub open spec fn pairs_view(v: Seq<(String, String)>) -> Seq<(Seq<char>, Seq<char>)> {
    Seq::new(v.len(), |i: int| (v[i].0@, v[i].1@))
}

/// A set of named parameters. Each name occurs once; entries stand in the
/// order in which their names were first written.
#[derive(Debug)]
pub struct Params {
    entries: Vec<(String, String)>,
}

impl View for Params {
    type V = Seq<(Seq<char>, Seq<char>)>;

    closed spec fn view(&self) -> Seq<(Seq<char>, Seq<char>)> {
        pairs_view(self.entries@)
    }
}

impl Params {
    #[verifier::type_invariant]
    spec fn well_formed(self) -> bool {
        distinct_keys(self@)
    }

    /// The empty set of parameters.
    pub fn new() -> (r: Params)
        ensures
            r@ == Seq::<(Seq<char>, Seq<char>)>::empty(),
    {
        let r = Params { entries: Vec::new() };
        assert(r@ =~= Seq::<(Seq<char>, Seq<char>)>::empty());
        r
    }

    /// The number of entries.
    pub fn len(&self) -> (n: usize)
        ensures
            n == self@.len(),
            distinct_keys(self@),
    {
        proof {
            use_type_invariant(self);
        }
        self.entries.len()
    }

    /// Whether there is no entry.
    pub fn is_empty(&self) -> (r: bool)
        ensures
            r == (self@.len() == 0),
    {
        self.entries.len() == 0
    }

    /// The name of entry `i`.
    pub fn name(&self, i: usize) -> (r: &String)
        requires
            i < self@.len(),
        ensures
            r@ == self@[i as int].0,
    {
        &self.entries[i].0
    }

    /// The value of entry `i`.
    pub fn value(&self, i: usize) -> (r: &String)
        requires
            i < self@.len(),
        ensures
            r@ == self@[i as int].1,
    {
        &self.entries[i].1
    }

    fn find(&self, key: &str) -> (p: usize)
        ensures
            p == position(self@, key@),
            p <= self@.len(),
    {
        let mut i: usize = 0;
        while i < self.entries.len()
            invariant
                i <= self.entries@.len(),
                forall|k: int| 0 <= k < i ==> self@[k].0 != key@,
            decreases self.entries@.len() - i,
        {
            if self.entries[i].0.as_str().eq(key) {
                proof {
                    lemma_position_is(self@, key@, i as int);
                }
                return i;
            }
            i += 1;
        }
        proof {
            lemma_position_is(self@, key@, i as int);
        }
        i
    }

    /// The entries, in order.
    pub fn to_pairs(&self) -> (r: Vec<(String, String)>)
        ensures
            pairs_view(r@) == self@,
    {
        let mut out: Vec<(String, String)> = Vec::new();
        let mut i: usize = 0;
        while i < self.entries.len()
            invariant
                i <= self.entries@.len(),
                pairs_view(out@) == self@.take(i as int),
            decreases self.entries@.len() - i,
        {
            let ghost before = out@;
            out.push((self.entries[i].0.clone(), self.entries[i].1.clone()));
            assert(pairs_view(out@) =~= pairs_view(before).push(self@[i as int]));
            assert(self@.take(i + 1) =~= self@.take(i as int).push(self@[i as int]));
            i += 1;
        }
        assert(self@.take(self@.len() as int) =~= self@);
        out
    }

    /// The value held for `key`.
    pub fn get(&self, key: &str) -> (r: Option<&String>)
        ensures
            match r {
                Some(v) => lookup(self@, key@) == Some(v@),
                None => lookup(self@, key@) is None,
            },
    {
        let p = self.find(key);
        if p < self.entries.len() {
            Some(&self.entries[p].1)
        } else {
            None
        }
    }

    /// Writes `value` for `key`. A value written earlier for `key` is
    /// replaced.
    pub fn insert(&mut self, key: String, value: String)
        ensures
            final(self)@ == inserted(old(self)@, key@, value@),
            distinct_keys(final(self)@),
    {
        proof {
            use_type_invariant(&*self);
            lemma_inserted_distinct(self@, key@, value@);
        }
        let p = self.find(key.as_str());
        let ghost before = self@;
        let mut entries: Vec<(String, String)> = Vec::new();
        core::mem::swap(&mut self.entries, &mut entries);
        if p < entries.len() {
            entries.set(p, (key, value));
        } else {
            entries.push((key, value));
        }
        assert(pairs_view(entries@) =~= inserted(before, key@, value@));
        core::mem::swap(&mut self.entries, &mut entries);
    }
}

} // verus!
