//! Path templates. A placeholder is a name between braces; resolving a
//! template replaces the placeholders of the given names by their values.

use crate::params::{distinct_keys, Params};
use crate::substitution::{
    lemma_nesting_kept, lemma_other_placeholder_stays, lemma_placeholder_gone,
    lemma_placeholder_shape, lemma_replace_commutes,
};
use crate::text::{contains, from_chars, occurs_at, replace_all, replace_chars, to_chars};
use vstd::prelude::*;

verus! {

/// The placeholder named `key`: `{`, the name, `}`.
pub open spec fn placeholder(key: Seq<char>) -> Seq<char> {
    seq!['{'] + key + seq!['}']
}

/// `path` after the placeholders named in `params` were replaced by their
/// values, one parameter after the other in the order of `params`.
pub open spec fn resolved_path(path: Seq<char>, params: Seq<(Seq<char>, Seq<char>)>) -> Seq<char>
    decreases params.len(),
{
    if params.len() == 0 {
        path
    } else {
        replace_all(
            resolved_path(path, params.drop_last()),
            placeholder(params.last().0),
            params.last().1,
        )
    }
}

/// `s` holds no brace.
pub open spec fn brace_free(s: Seq<char>) -> bool {
    forall|i: int| 0 <= i < s.len() ==> s[i] != '{' && s[i] != '}'
}

/// `s` holds no opening brace.
pub open spec fn open_free(s: Seq<char>) -> bool {
    forall|i: int| 0 <= i < s.len() ==> s[i] != '{'
}

/// `s` holds no closing brace.
pub open spec fn close_free(s: Seq<char>) -> bool {
    forall|i: int| 0 <= i < s.len() ==> s[i] != '}'
}

/// A closing brace stands in `s` between the indices `i` and `j`.
pub open spec fn closes_between(s: Seq<char>, i: int, j: int) -> bool {
    exists|m: int| i < m < j && #[trigger] s[m] == '}'
}

/// No placeholder of `s` is opened inside another: between two opening
/// braces stands a closing one.
pub open spec fn no_nested_open(s: Seq<char>) -> bool {
    forall|i: int, j: int|
        0 <= i < j < s.len() && s[i] == '{' && s[j] == '{' ==> #[trigger] closes_between(s, i, j)
}

/// No value of `params` holds an opening brace.
pub open spec fn plain_values(params: Seq<(Seq<char>, Seq<char>)>) -> bool {
    forall|i: int| 0 <= i < params.len() ==> open_free(#[trigger] params[i].1)
}

/// No name of `params` holds a brace.
pub open spec fn plain_names(params: Seq<(Seq<char>, Seq<char>)>) -> bool {
    forall|i: int| 0 <= i < params.len() ==> brace_free(#[trigger] params[i].0)
}

/// Resolving a template without nested placeholders, with values without
/// an opening brace, gives a text without nested placeholders.
pub proof fn lemma_resolved_nesting(path: Seq<char>, params: Seq<(Seq<char>, Seq<char>)>)
    requires
        no_nested_open(path),
        plain_values(params),
    ensures
        no_nested_open(resolved_path(path, params)),
    decreases params.len(),
{
    if params.len() > 0 {
        let front = params.drop_last();
        assert forall|i: int| 0 <= i < front.len() implies open_free(#[trigger] front[i].1) by {
            assert(front[i] == params[i]);
        }
        lemma_resolved_nesting(path, front);
        assert(open_free(params[params.len() - 1].1));
        lemma_nesting_kept(resolved_path(path, front), params.last().0, params.last().1);
    }
}

/// The placeholder of a parameter does not occur in the resolved path.
///
/// This holds of a template in which no placeholder is opened inside
/// another, where no value holds an opening brace and the parameter's name
/// holds no closing brace.
pub proof fn lemma_resolved_has_no_placeholder(
    path: Seq<char>,
    params: Seq<(Seq<char>, Seq<char>)>,
    i: int,
)
    requires
        no_nested_open(path),
        plain_values(params),
        0 <= i < params.len(),
        close_free(params[i].0),
    ensures
        !contains(resolved_path(path, params), placeholder(params[i].0)),
    decreases params.len(),
{
    let front = params.drop_last();
    let last = params.last();
    assert forall|m: int| 0 <= m < front.len() implies open_free(#[trigger] front[m].1) by {
        assert(front[m] == params[m]);
    }
    lemma_resolved_nesting(path, front);
    assert(open_free(params[params.len() - 1].1));
    if i < front.len() {
        assert(front[i] == params[i]);
        lemma_resolved_has_no_placeholder(path, front, i);
    }
    lemma_placeholder_gone(resolved_path(path, front), last.0, last.1, params[i].0);
}

/// A placeholder whose name is not among the parameters stays in the
/// resolved path, where its name and those of the parameters hold no brace.
pub proof fn lemma_unmatched_placeholder_stays(
    path: Seq<char>,
    params: Seq<(Seq<char>, Seq<char>)>,
    name: Seq<char>,
)
    requires
        brace_free(name),
        plain_names(params),
        forall|i: int| 0 <= i < params.len() ==> #[trigger] params[i].0 != name,
        contains(path, placeholder(name)),
    ensures
        contains(resolved_path(path, params), placeholder(name)),
    decreases params.len(),
{
    if params.len() > 0 {
        let front = params.drop_last();
        let last = params.last();
        assert forall|i: int| 0 <= i < front.len() implies brace_free(#[trigger] front[i].0)
            && front[i].0 != name by {
            assert(front[i] == params[i]);
        }
        lemma_unmatched_placeholder_stays(path, front, name);
        assert(brace_free(params[params.len() - 1].0));
        assert(params[params.len() - 1].0 != name);
        lemma_other_placeholder_stays(resolved_path(path, front), last.0, last.1, name);
    }
}

/// Resolving with one parameter is replacing its placeholder.
pub proof fn lemma_resolved_one(path: Seq<char>, key: Seq<char>, value: Seq<char>)
    ensures
        resolved_path(path, seq![(key, value)]) == replace_all(path, placeholder(key), value),
{
    let params = seq![(key, value)];
    assert(params.drop_last() =~= Seq::empty());
    assert(params.last() == (key, value));
    reveal_with_fuel(resolved_path, 2);
}

/// A parameter whose placeholder does not occur leaves the text as it is.
pub proof fn lemma_absent_placeholder(path: Seq<char>, key: Seq<char>, value: Seq<char>)
    requires
        !contains(path, placeholder(key)),
    ensures
        resolved_path(path, seq![(key, value)]) == path,
{
    lemma_resolved_one(path, key, value);
    crate::text::lemma_replace_absent(path, placeholder(key), value);
}

/// The value stands in the place of the placeholder: where the first
/// placeholder of the parameter stands at `p`, the resolved path is the
/// template up to `p`, the value, and what resolving makes of the rest.
pub proof fn lemma_value_in_place(path: Seq<char>, key: Seq<char>, value: Seq<char>, p: int)
    requires
        occurs_at(path, placeholder(key), p),
        forall|q: int| 0 <= q < p ==> !occurs_at(path, placeholder(key), q),
    ensures
        resolved_path(path, seq![(key, value)]) == path.take(p) + value + resolved_path(
            path.skip(p + placeholder(key).len()),
            seq![(key, value)],
        ),
{
    lemma_resolved_one(path, key, value);
    lemma_resolved_one(path.skip(p + placeholder(key).len()), key, value);
    lemma_placeholder_shape(key);
    crate::text::lemma_replace_first(path, placeholder(key), value, p);
}

/// Resolving with two lists of parameters, one after the other, is
/// resolving with the first and then with the second.
pub proof fn lemma_resolved_append(
    path: Seq<char>,
    first: Seq<(Seq<char>, Seq<char>)>,
    second: Seq<(Seq<char>, Seq<char>)>,
)
    ensures
        resolved_path(path, first + second) == resolved_path(resolved_path(path, first), second),
    decreases second.len(),
{
    if second.len() == 0 {
        assert(first + second =~= first);
    } else {
        lemma_resolved_append(path, first, second.drop_last());
        assert((first + second).drop_last() =~= first + second.drop_last());
        assert((first + second).last() == second.last());
    }
}

/// The order of two neighbouring parameters of different names does not
/// matter.
///
/// This holds of a template in which no placeholder is opened inside
/// another, where no value up to the two holds an opening brace and the
/// names of the two hold no brace.
pub proof fn lemma_resolved_swap(
    path: Seq<char>,
    front: Seq<(Seq<char>, Seq<char>)>,
    x: (Seq<char>, Seq<char>),
    y: (Seq<char>, Seq<char>),
    back: Seq<(Seq<char>, Seq<char>)>,
)
    requires
        no_nested_open(path),
        plain_values(front),
        brace_free(x.0),
        open_free(x.1),
        brace_free(y.0),
        open_free(y.1),
        x.0 != y.0,
    ensures
        resolved_path(path, front + seq![x, y] + back) == resolved_path(
            path,
            front + seq![y, x] + back,
        ),
{
    let base = resolved_path(path, front);
    lemma_resolved_nesting(path, front);
    lemma_replace_commutes(base, x.0, x.1, y.0, y.1);
    lemma_resolved_append(path, front + seq![x, y], back);
    lemma_resolved_append(path, front + seq![y, x], back);
    lemma_resolved_append(path, front, seq![x, y]);
    lemma_resolved_append(path, front, seq![y, x]);
    lemma_resolved_append(base, seq![x], seq![y]);
    lemma_resolved_append(base, seq![y], seq![x]);
    assert(seq![x] + seq![y] =~= seq![x, y]);
    assert(seq![y] + seq![x] =~= seq![y, x]);
    lemma_resolved_one(base, x.0, x.1);
    lemma_resolved_one(base, y.0, y.1);
    lemma_resolved_one(resolved_path(base, seq![x]), y.0, y.1);
    lemma_resolved_one(resolved_path(base, seq![y]), x.0, x.1);
}

/// A parameter can be resolved last instead of in its turn.
///
/// This holds of a template in which no placeholder is opened inside
/// another, where the names hold no brace, the values hold no opening
/// brace and no name occurs twice.
pub proof fn lemma_resolved_last(path: Seq<char>, params: Seq<(Seq<char>, Seq<char>)>, i: int)
    requires
        no_nested_open(path),
        plain_names(params),
        plain_values(params),
        distinct_keys(params),
        0 <= i < params.len(),
    ensures
        resolved_path(path, params) == resolved_path(path, params.remove(i).push(params[i])),
    decreases params.len() - i,
{
    if i == params.len() - 1 {
        assert(params.remove(i).push(params[i]) =~= params);
    } else {
        let front = params.take(i);
        let x = params[i];
        let y = params[i + 1];
        let back = params.skip(i + 2);
        let swapped = front + seq![y, x] + back;
        assert(params =~= front + seq![x, y] + back);
        assert forall|m: int| 0 <= m < front.len() implies open_free(#[trigger] front[m].1) by {
            assert(front[m] == params[m]);
        }
        assert(brace_free(params[i].0) && open_free(params[i].1));
        assert(brace_free(params[i + 1].0) && open_free(params[i + 1].1));
        lemma_resolved_swap(path, front, x, y, back);
        assert forall|m: int| 0 <= m < swapped.len() implies brace_free(#[trigger] swapped[m].0)
            && open_free(swapped[m].1) by {
            if m == i {
                assert(swapped[m] == params[i + 1]);
            } else if m == i + 1 {
                assert(swapped[m] == params[i]);
            } else {
                assert(swapped[m] == params[m]);
            }
        }
        assert forall|a: int, b: int| 0 <= a < b < swapped.len() implies swapped[a].0
            != swapped[b].0 by {
            let a0 = if a == i {
                i + 1
            } else if a == i + 1 {
                i
            } else {
                a
            };
            let b0 = if b == i {
                i + 1
            } else if b == i + 1 {
                i
            } else {
                b
            };
            assert(swapped[a] == params[a0]);
            assert(swapped[b] == params[b0]);
            if a0 < b0 {
                assert(params[a0].0 != params[b0].0);
            } else {
                assert(params[b0].0 != params[a0].0);
            }
        }
        lemma_resolved_last(path, swapped, i + 1);
        assert(swapped.remove(i + 1).push(swapped[i + 1]) =~= params.remove(i).push(params[i]));
    }
}

/// The value of a parameter whose placeholder occurs in the template
/// occurs in the resolved path.
///
/// This holds of a template in which no placeholder is opened inside
/// another, where the names hold no brace, the values hold no opening
/// brace and no name occurs twice.
pub proof fn lemma_resolved_has_value(
    path: Seq<char>,
    params: Seq<(Seq<char>, Seq<char>)>,
    i: int,
)
    requires
        no_nested_open(path),
        plain_names(params),
        plain_values(params),
        distinct_keys(params),
        0 <= i < params.len(),
        contains(path, placeholder(params[i].0)),
    ensures
        contains(resolved_path(path, params), params[i].1),
{
    let others = params.remove(i);
    let moved = others.push(params[i]);
    lemma_resolved_last(path, params, i);
    assert(moved.drop_last() =~= others);
    assert(moved.last() == params[i]);
    assert(brace_free(params[i].0));
    assert forall|m: int| 0 <= m < others.len() implies brace_free(#[trigger] others[m].0)
        && others[m].0 != params[i].0 by {
        if m < i {
            assert(others[m] == params[m]);
            assert(params[m].0 != params[i].0);
        } else {
            assert(others[m] == params[m + 1]);
            assert(params[i].0 != params[m + 1].0);
        }
    }
    lemma_unmatched_placeholder_stays(path, others, params[i].0);
    lemma_placeholder_shape(params[i].0);
    crate::text::lemma_replacement_occurs(
        resolved_path(path, others),
        placeholder(params[i].0),
        params[i].1,
    );
}

/// The placeholder named `key`.
pub fn placeholder_chars(key: &str) -> (r: Vec<char>)
    ensures
        r@ == placeholder(key@),
{
    let mut out: Vec<char> = Vec::new();
    out.push('{');
    let name = to_chars(key);
    out.extend_from_slice(name.as_slice());
    out.push('}');
    assert(out@ =~= placeholder(key@));
    out
}

/// Replaces in `path` the placeholders named in `params` by their values.
/// A placeholder whose name is not in `params` stays as it is.
pub fn resolve_path(path: &str, params: &Params) -> (r: String)
    ensures
        r@ == resolved_path(path@, params@),
{
    let mut current = to_chars(path);
    let mut i: usize = 0;
    assert(params@.take(0) =~= Seq::empty());
    while i < params.len()
        invariant
            i <= params@.len(),
            current@ == resolved_path(path@, params@.take(i as int)),
        decreases params@.len() - i,
    {
        let pattern = placeholder_chars(params.name(i).as_str());
        let value = to_chars(params.value(i).as_str());
        proof {
            let next = params@.take(i + 1);
            assert(next.drop_last() =~= params@.take(i as int));
            assert(next.last() == params@[i as int]);
        }
        current = replace_chars(&current, &pattern, &value);
        i += 1;
    }
    assert(params@.take(params@.len() as int) =~= params@);
    from_chars(&current)
}

} // verus!
