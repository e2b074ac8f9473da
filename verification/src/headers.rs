//! Request headers. A header name is matched without regard to the case of
//! its ASCII letters, so each field is kept under its lower-case name.

use crate::params::{distinct_keys, inserted, lookup, Params};
use crate::text::{ascii_lower, lower_text};
use vstd::prelude::*;

verus! {

/// The fields `s` after `name` was set to `value`.
pub open spec fn header_set(
    s: Seq<(Seq<char>, Seq<char>)>,
    name: Seq<char>,
    value: Seq<char>,
) -> Seq<(Seq<char>, Seq<char>)> {
    inserted(s, ascii_lower(name), value)
}

/// The value that the fields `s` hold for `name`.
pub open spec fn header_value(s: Seq<(Seq<char>, Seq<char>)>, name: Seq<char>) -> Option<
    Seq<char>,
> {
    lookup(s, ascii_lower(name))
}

/// Every name in `s` is in lower case.
pub open spec fn lower_names(s: Seq<(Seq<char>, Seq<char>)>) -> bool {
    forall|i: int| 0 <= i < s.len() ==> #[trigger] s[i].0 == ascii_lower(s[i].0)
}

/// Lower-casing twice is lower-casing once.
pub proof fn lemma_lower_twice(s: Seq<char>)
    ensures
        ascii_lower(ascii_lower(s)) == ascii_lower(s),
{
    assert(ascii_lower(ascii_lower(s)) =~= ascii_lower(s));
}

/// Setting a field keeps every name in lower case.
pub proof fn lemma_set_lower(s: Seq<(Seq<char>, Seq<char>)>, name: Seq<char>, value: Seq<char>)
    requires
        lower_names(s),
    ensures
        lower_names(header_set(s, name, value)),
{
    lemma_lower_twice(name);
    let t = header_set(s, name, value);
    crate::params::lemma_position(s, ascii_lower(name));
    assert forall|i: int| 0 <= i < t.len() implies #[trigger] t[i].0 == ascii_lower(t[i].0) by {
        if i < s.len() && i != crate::params::position(s, ascii_lower(name)) {
            assert(t[i] == s[i]);
        }
    }
}

/// A later write overwrites an earlier one of the same name, whatever the
/// case of the letters, and leaves the fields of other names alone.
pub proof fn lemma_header_set_value(
    s: Seq<(Seq<char>, Seq<char>)>,
    name: Seq<char>,
    value: Seq<char>,
    asked: Seq<char>,
)
    ensures
        header_value(header_set(s, name, value), asked) == if ascii_lower(asked) == ascii_lower(
            name,
        ) {
            Some(value)
        } else {
            header_value(s, asked)
        },
{
    crate::params::lemma_inserted_lookup(s, ascii_lower(name), value, ascii_lower(asked));
}

/// The header fields of a request. No two fields have names that are equal
/// up to the case of ASCII letters.
#[derive(Debug)]
pub struct Headers {
    fields: Params,
}

impl View for Headers {
    type V = Seq<(Seq<char>, Seq<char>)>;

    closed spec fn view(&self) -> Seq<(Seq<char>, Seq<char>)> {
        self.fields@
    }
}

impl Headers {
    #[verifier::type_invariant]
    spec fn well_formed(self) -> bool {
        lower_names(self@)
    }

    /// No fields.
    pub fn new() -> (r: Headers)
        ensures
            r@ == Seq::<(Seq<char>, Seq<char>)>::empty(),
    {
        Headers { fields: Params::new() }
    }

    /// The number of fields.
    pub fn len(&self) -> (n: usize)
        ensures
            n == self@.len(),
            distinct_keys(self@),
            lower_names(self@),
    {
        proof {
            use_type_invariant(self);
        }
        self.fields.len()
    }

    /// The lower-case name of field `i`.
    pub fn name(&self, i: usize) -> (r: &String)
        requires
            i < self@.len(),
        ensures
            r@ == self@[i as int].0,
    {
        self.fields.name(i)
    }

    /// The value of field `i`.
    pub fn value(&self, i: usize) -> (r: &String)
        requires
            i < self@.len(),
        ensures
            r@ == self@[i as int].1,
    {
        self.fields.value(i)
    }

    /// The value of the field `name`, whatever the case of its letters.
    pub fn get(&self, name: &str) -> (r: Option<&String>)
        ensures
            match r {
                Some(v) => header_value(self@, name@) == Some(v@),
                None => header_value(self@, name@) is None,
            },
    {
        let lowered = lower_text(name);
        self.fields.get(lowered.as_str())
    }

    /// Sets the field `name` to `value`. A field of that name, whatever the
    /// case of its letters, is overwritten.
    pub fn set(&mut self, name: &str, value: String)
        ensures
            final(self)@ == header_set(old(self)@, name@, value@),
    {
        proof {
            use_type_invariant(&*self);
            lemma_set_lower(self@, name@, value@);
        }
        let mut fields = Params::new();
        core::mem::swap(&mut self.fields, &mut fields);
        fields.insert(lower_text(name), value);
        core::mem::swap(&mut self.fields, &mut fields);
    }
}

} // verus!
