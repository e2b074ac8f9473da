//! Request targets, read by the URI parser that `hyper` uses.

use vstd::prelude::*;

verus! {

#[verifier::external_type_specification]
#[verifier::external_body]
pub struct ExUri(hyper::Uri);

#[verifier::external_type_specification]
#[verifier::external_body]
pub struct ExInvalidUri(hyper::http::uri::InvalidUri);

/// What the URI parser makes of `text`: the URI, or the reason why `text`
/// is none.
pub uninterp spec fn uri_document(text: Seq<char>) -> Result<
    hyper::Uri,
    hyper::http::uri::InvalidUri,
>;

/// `hyper::Uri`'s `FromStr::from_str`: reads `text` as a URI.
#[verifier::external_body]
pub(crate) fn uri_from_str(text: &str) -> (r: Result<hyper::Uri, hyper::http::uri::InvalidUri>)
    ensures
        r == uri_document(text@),
{
    text.parse::<hyper::Uri>()
}

} // verus!
