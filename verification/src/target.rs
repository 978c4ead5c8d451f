//! Checking a target before it is stored: it must be an absolute URL, and it
//! is kept in the normal form that the URL parser gives it.

use vstd::prelude::*;

verus! {

/// The URL parser's error type. It is declared with its variants, which Verus
/// reads from the `url` crate itself, so that the messages below are proved
/// against the real enum.
#[verifier::external_type_specification]
pub struct ExParseError(url::ParseError);

/// What parsing `text` as an absolute URL gives: the URL in its normal form,
/// or the parser's reason for refusing the text.
pub uninterp spec fn url_parse(text: Seq<char>) -> Result<Seq<char>, url::ParseError>;

/// Parses `text` as an absolute URL and writes the URL out again.
///
/// Trusted: this is `url::Url::parse`, with the URL that comes out turned into
/// the string it holds. The contract claims nothing about what a URL is; it
/// only names the outcome as a function of the text, which holds because the
/// parser reads nothing but the text.
#[verifier::external_body]
pub(crate) fn parse_url(text: &str) -> (r: Result<String, url::ParseError>)
    ensures
        match r {
            Ok(s) => url_parse(text@) == Ok::<Seq<char>, url::ParseError>(s@),
            Err(e) => url_parse(text@) == Err::<Seq<char>, url::ParseError>(e),
        },
{
    match url::Url::parse(text) {
        Ok(u) => Ok(String::from(u)),
        Err(e) => Err(e),
    }
}

/// The message for each reason the parser can give. Reasons that a later
/// version of the parser may add fall under `unknown`.
pub open spec fn parse_error_text(err: url::ParseError) -> Seq<char> {
    match err {
        url::ParseError::EmptyHost => "invalid-url:empty-host"@,
        url::ParseError::IdnaError => "invalid-url:idna-error"@,
        url::ParseError::InvalidPort => "invalid-url:invalid-port"@,
        url::ParseError::InvalidIpv4Address => "invalid-url:invalid-ipv4"@,
        url::ParseError::InvalidIpv6Address => "invalid-url:invalid-ipv6"@,
        url::ParseError::InvalidDomainCharacter => "invalid-url:invalid-domain"@,
        url::ParseError::RelativeUrlWithoutBase => "invalid-url:relative-url-without-base"@,
        url::ParseError::RelativeUrlWithCannotBeABaseBase =>
            "invalid-url:relative-url-with-cannot-be-a-base-base"@,
        url::ParseError::SetHostOnCannotBeABaseUrl =>
            "invalid-url:set-host-on-cannot-be-a-base-url"@,
        url::ParseError::Overflow => "invalid-url:overflow"@,
        _ => "invalid-url:unknown"@,
    }
}

/// The message sent back for a target that is no absolute URL.
pub fn url_parse_error_to_string(err: url::ParseError) -> (text: &'static str)
    ensures
        text@ == parse_error_text(err),
{
    match err {
        url::ParseError::EmptyHost => "invalid-url:empty-host",
        url::ParseError::IdnaError => "invalid-url:idna-error",
        url::ParseError::InvalidPort => "invalid-url:invalid-port",
        url::ParseError::InvalidIpv4Address => "invalid-url:invalid-ipv4",
        url::ParseError::InvalidIpv6Address => "invalid-url:invalid-ipv6",
        url::ParseError::InvalidDomainCharacter => "invalid-url:invalid-domain",
        url::ParseError::RelativeUrlWithoutBase => "invalid-url:relative-url-without-base",
        url::ParseError::RelativeUrlWithCannotBeABaseBase => {
            "invalid-url:relative-url-with-cannot-be-a-base-base"
        },
        url::ParseError::SetHostOnCannotBeABaseUrl => "invalid-url:set-host-on-cannot-be-a-base-url",
        url::ParseError::Overflow => "invalid-url:overflow",
        _ => "invalid-url:unknown",
    }
}

} // verus!
