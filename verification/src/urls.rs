//! URL parsing and resolution, by the `url` crate.

use vstd::prelude::*;

verus! {

#[verifier::external_type_specification]
#[verifier::external_body]
pub struct ExUrlParseError(url::ParseError);

/// The serialization of `url::Url::parse(input)`, or `None` where the
/// parse fails.
pub uninterp spec fn url_parse(input: Seq<char>) -> Option<Seq<char>>;

/// The serialization of `url::Url::parse(base)` joined with `input` by
/// `url::Url::join`, or `None` where either step fails.
pub uninterp spec fn url_join(base: Seq<char>, input: Seq<char>) -> Option<Seq<char>>;

/// Parses `input` with `url::Url::parse` and returns the serialization of
/// the URL (`Url::to_string`). The contract claims that the result is a
/// function of `input` alone; the error value is not described.
#[verifier::external_body]
pub(crate) fn parse_url(input: &str) -> (r: Result<String, url::ParseError>)
    ensures
        r is Ok <==> url_parse(input@) is Some,
        r matches Ok(u) ==> url_parse(input@) == Some(u@),
{
    url::Url::parse(input).map(|u| u.to_string())
}

/// Parses `base` with `url::Url::parse`, resolves `input` against it with
/// `url::Url::join` and returns the serialization of the resolved URL. The
/// contract claims that the result is a function of the two arguments alone
/// and that it only succeeds where `base` parses; the error value is not
/// described.
#[verifier::external_body]
pub(crate) fn join_url(base: &str, input: &str) -> (r: Result<String, url::ParseError>)
    ensures
        r is Ok <==> url_join(base@, input@) is Some,
        r matches Ok(u) ==> url_join(base@, input@) == Some(u@),
        r is Ok ==> url_parse(base@) is Some,
{
    url::Url::parse(base).and_then(|b| b.join(input)).map(|u| u.to_string())
}

/// The texts that a `url::ParseError` is shown with, one for each kind of
/// error.
pub open spec fn is_url_error_text(s: Seq<char>) -> bool {
    ||| s == "empty host"@
    ||| s == "invalid international domain name"@
    ||| s == "invalid port number"@
    ||| s == "invalid IPv4 address"@
    ||| s == "invalid IPv6 address"@
    ||| s == "invalid domain character"@
    ||| s == "relative URL without a base"@
    ||| s == "relative URL with a cannot-be-a-base base"@
    ||| s == "a cannot-be-a-base URL doesn’t have a host to set"@
    ||| s == "URLs more than 4 GB are not supported"@
}

/// The message of a `url::ParseError` (its `Display`). Claimed: the text is
/// the one its kind of error is shown with, so one of `is_url_error_text`;
/// which kind `error` is, the opaque value does not tell.
#[verifier::external_body]
pub(crate) fn parse_error_message(error: url::ParseError) -> (r: String)
    ensures
        is_url_error_text(r@),
{
    error.to_string()
}

} // verus!
