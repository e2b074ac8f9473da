//! The two text encodings that a request needs: name/value pairs in the
//! `application/x-www-form-urlencoded` syntax, and base64.

use crate::params::pairs_view;
use vstd::prelude::*;

verus! {

/// A form serializer of the `url` crate that writes into a string of its own
/// and has not been finished.
#[verifier::external_body]
pub struct FormSerializer {
    inner: url::form_urlencoded::Serializer<String>,
}

/// The text that a form serializer has written so far.
pub uninterp spec fn form_text(s: FormSerializer) -> Seq<char>;

/// One name or value as the form serializer writes it: the bytes of its
/// UTF-8 form, each kept, turned into `+` or percent-encoded.
pub uninterp spec fn form_component(s: Seq<char>) -> Seq<char>;

/// The base64 text of a sequence of bytes, standard alphabet, padded.
pub uninterp spec fn base64_text(bytes: Seq<u8>) -> Seq<char>;

/// `text` after the form serializer has appended one pair to it: a `&` if
/// `text` was not empty, the encoded name, `=`, and the encoded value.
pub open spec fn pair_appended(text: Seq<char>, name: Seq<char>, value: Seq<char>) -> Seq<char> {
    (if text.len() > 0 {
        text.push('&')
    } else {
        text
    }) + form_component(name) + seq!['='] + form_component(value)
}

/// The pairs of `pairs` in form-urlencoded syntax, in order.
pub open spec fn form_encoded(pairs: Seq<(Seq<char>, Seq<char>)>) -> Seq<char>
    decreases pairs.len(),
{
    if pairs.len() == 0 {
        Seq::empty()
    } else {
        pair_appended(form_encoded(pairs.drop_last()), pairs.last().0, pairs.last().1)
    }
}

/// `url::form_urlencoded::Serializer::new` on an empty string: nothing has
/// been written yet.
#[verifier::external_body]
fn form_new() -> (r: FormSerializer)
    ensures
        form_text(r) == Seq::<char>::empty(),
{
    FormSerializer { inner: url::form_urlencoded::Serializer::new(String::new()) }
}

/// `url::form_urlencoded::Serializer::append_pair`: writes a `&` unless
/// nothing was written before, then the encoded name, `=`, and the encoded
/// value.
#[verifier::external_body]
fn form_append_pair(s: &mut FormSerializer, name: &str, value: &str)
    ensures
        form_text(*final(s)) == (if form_text(*old(s)).len() > 0 {
            form_text(*old(s)).push('&')
        } else {
            form_text(*old(s))
        }) + form_component(name@) + seq!['='] + form_component(value@),
{
    s.inner.append_pair(name, value);
}

/// `url::form_urlencoded::Serializer::finish`: hands out the text written.
#[verifier::external_body]
fn form_finish(s: FormSerializer) -> (r: String)
    ensures
        r@ == form_text(s),
{
    let mut s = s;
    s.inner.finish()
}

/// `base64::encode`: the base64 text of `bytes`.
#[verifier::external_body]
fn base64_encode(bytes: &[u8]) -> (r: String)
    ensures
        r@ == base64_text(bytes@),
{
    base64::encode(bytes)
}

/// The encoded text is empty exactly when there is no pair.
pub proof fn lemma_form_encoded_empty(pairs: Seq<(Seq<char>, Seq<char>)>)
    ensures
        form_encoded(pairs).len() == 0 <==> pairs.len() == 0,
{
}

/// Encodes name/value pairs in form-urlencoded syntax, in order.
pub fn form_encode(pairs: &Vec<(String, String)>) -> (r: String)
    ensures
        r@ == form_encoded(pairs_view(pairs@)),
{
    let mut serializer = form_new();
    let mut i: usize = 0;
    assert(pairs_view(pairs@).take(0) =~= Seq::empty());
    while i < pairs.len()
        invariant
            i <= pairs@.len(),
            form_text(serializer) == form_encoded(pairs_view(pairs@).take(i as int)),
        decreases pairs@.len() - i,
    {
        form_append_pair(&mut serializer, pairs[i].0.as_str(), pairs[i].1.as_str());
        proof {
            let next = pairs_view(pairs@).take(i + 1);
            assert(next.drop_last() =~= pairs_view(pairs@).take(i as int));
            assert(next.last() == (pairs@[i as int].0@, pairs@[i as int].1@));
        }
        i += 1;
    }
    assert(pairs_view(pairs@).take(pairs@.len() as int) =~= pairs_view(pairs@));
    form_finish(serializer)
}

/// The base64 text of the UTF-8 form of `text`.
pub fn base64_of_text(text: &str) -> (r: String)
    ensures
        r@ == base64_text(vstd::utf8::encode_utf8(text@)),
{
    base64_encode(text.as_bytes())
}

} // verus!
