//! Locations of files: absolute URLs as text, and references resolved against them.

use url::{ParseError, Url};
use vstd::prelude::*;

use crate::error::Error;

verus! {

/// Why a text is not a URL.
#[verifier::external_type_specification]
#[verifier::external_body]
pub struct ExParseError(ParseError);

/// What a URL reference resolves to against a base URL: the serialization of the URL that
/// `Url::join` gives, or nothing where the base is no absolute URL or the reference does not parse.
pub uninterp spec fn url_join(base: Seq<char>, reference: Seq<char>) -> Option<Seq<char>>;

/// `Url::join`, on serialized URLs: the base is read with `Url::parse`, and the joined URL is
/// written out. The result is a function of the two texts, named by `url_join`.
#[verifier::external_body]
fn join_serialized(base: &str, reference: &str) -> (r: Result<String, ParseError>)
    ensures
        match r {
            Ok(joined) => url_join(base@, reference@) == Some(joined@),
            Err(_) => url_join(base@, reference@) is None,
        },
{
    let joined = Url::parse(base)?.join(reference)?;
    Ok(String::from(joined))
}

/// The location that a reference leads to from a base location.
pub fn join_location(base: &str, reference: &str) -> (r: Result<String, Error>)
    ensures
        match r {
            Ok(joined) => url_join(base@, reference@) == Some(joined@),
            Err(e) => url_join(base@, reference@) is None && e == Error::InvalidUrl,
        },
{
    match join_serialized(base, reference) {
        Ok(joined) => Ok(joined),
        Err(_) => Err(Error::InvalidUrl),
    }
}

} // verus!
