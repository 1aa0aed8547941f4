//! The address that a fetched map page is requested from.
use vstd::prelude::*;
use url::ParseError;

verus! {

/// The kinds of refusal of the URL parser (`url::ParseError`); `Other`
/// stands for kinds that later versions of the parser may add.
#[derive(Debug, Clone, Copy, PartialEq, Eq, Structural)]
pub enum UrlParseError {
    EmptyHost,
    IdnaError,
    InvalidPort,
    InvalidIpv4Address,
    InvalidIpv6Address,
    InvalidDomainCharacter,
    RelativeUrlWithoutBase,
    RelativeUrlWithCannotBeABaseBase,
    SetHostOnCannotBeABaseUrl,
    Overflow,
    Other,
}

/// What `url::Url::parse` makes of `input`: the serialization of the URL,
/// or the kind of its refusal.
pub uninterp spec fn url_parse(input: Seq<char>) -> Result<Seq<char>, UrlParseError>;

/// `url::Url::parse` followed by `Url::as_str`, with the parser's error
/// converted kind for kind. The contract claims only that the result is the
/// parser's answer for `input` (the same input gives the same answer); what
/// the parser accepts, how it normalises and which kind it reports is not
/// stated.
#[verifier::external_body]
fn parse_url(input: &str) -> (r: Result<String, UrlParseError>)
    ensures
        match r {
            Ok(s) => url_parse(input@) == Ok::<Seq<char>, UrlParseError>(s@),
            Err(k) => url_parse(input@) == Err::<Seq<char>, UrlParseError>(k),
        },
{
    match url::Url::parse(input) {
        Ok(u) => Ok(u.as_str().to_string()),
        Err(ParseError::EmptyHost) => Err(UrlParseError::EmptyHost),
        Err(ParseError::IdnaError) => Err(UrlParseError::IdnaError),
        Err(ParseError::InvalidPort) => Err(UrlParseError::InvalidPort),
        Err(ParseError::InvalidIpv4Address) => Err(UrlParseError::InvalidIpv4Address),
        Err(ParseError::InvalidIpv6Address) => Err(UrlParseError::InvalidIpv6Address),
        Err(ParseError::InvalidDomainCharacter) => Err(UrlParseError::InvalidDomainCharacter),
        Err(ParseError::RelativeUrlWithoutBase) => Err(UrlParseError::RelativeUrlWithoutBase),
        Err(ParseError::RelativeUrlWithCannotBeABaseBase) => Err(UrlParseError::RelativeUrlWithCannotBeABaseBase),
        Err(ParseError::SetHostOnCannotBeABaseUrl) => Err(UrlParseError::SetHostOnCannotBeABaseUrl),
        Err(ParseError::Overflow) => Err(UrlParseError::Overflow),
        Err(_) => Err(UrlParseError::Other),
    }
}

/// Why a page could not be requested.
#[derive(Debug, Clone, Copy, PartialEq, Eq, Structural)]
pub enum ClientError {
    /// The request's URI is not a URL; the parser's kind of refusal.
    InvalidUrl(UrlParseError),
}

/// The URL a page request goes to: the request's URI as the URL parser
/// reads it, or the parser's refusal.
pub fn process(uri: &str) -> (r: Result<String, ClientError>)
    ensures
        match url_parse(uri@) {
            Ok(u) => r matches Ok(s) && s@ == u,
            Err(kind) => r == Err::<String, ClientError>(ClientError::InvalidUrl(kind)),
        },
{
    request_target(parse_url(uri))
}

/// The URL a page request goes to, given what the URL parser made of its
/// URI: the parsed URL, or `InvalidUrl` with the parser's kind of refusal.
pub fn request_target(parsed: Result<String, UrlParseError>) -> (r: Result<String, ClientError>)
    ensures
        match parsed {
            Ok(s) => r == Ok::<String, ClientError>(s),
            Err(kind) => r == Err::<String, ClientError>(ClientError::InvalidUrl(kind)),
        },
{
    match parsed {
        Ok(s) => Ok(s),
        Err(kind) => Err(ClientError::InvalidUrl(kind)),
    }
}

} // verus!
