//! What the library reads of an intercepted request: its method and the
//! numeric identifiers carried in its headers.
use vstd::prelude::*;
use crate::text::{chars_of, parse_u64, parse_u64_spec};
use vstd::utf8::{encode_utf8, valid_utf8};

verus! {

/// The request methods that the handlers tell apart.
#[derive(Debug, Clone, Copy, PartialEq, Eq, Structural)]
pub enum Method {
    Get,
    Post,
    Put,
    Delete,
    /// Any other method.
    Other,
}

/// A request that the handlers cannot serve; the embedding application
/// aborts on it with the message of `RequestFault::message`.
#[derive(Debug, Clone, Copy, PartialEq, Eq, Structural)]
pub enum RequestFault {
    /// No `X-Map-ID` header.
    MissingMapId,
    /// No `X-Game-ID` header.
    MissingGameId,
    /// A header value that is not visible ASCII text.
    HeaderNotText,
    /// A number that does not parse as a `u64`.
    InvalidNumber,
    /// A map-data path with fewer than two identifiers.
    MissingIdentifier,
    /// A request body that is not UTF-8.
    BodyNotUtf8,
    /// A body or note identifier with a NUL character.
    InteriorNul,
    /// A body or note identifier longer than `i32::MAX` bytes.
    TooLong,
}

/// The text that describes a fault.
pub open spec fn fault_message(f: RequestFault) -> Seq<char> {
    match f {
        RequestFault::MissingMapId => "X-Map-ID not found"@,
        RequestFault::MissingGameId => "X-Game-ID not found"@,
        RequestFault::HeaderNotText => "header value is not visible ASCII"@,
        RequestFault::InvalidNumber => "invalid number"@,
        RequestFault::MissingIdentifier => "missing identifier"@,
        RequestFault::BodyNotUtf8 => "Invalid UTF-8"@,
        RequestFault::InteriorNul => "Invalid UTF-8"@,
        RequestFault::TooLong => "length does not fit in i32"@,
    }
}

impl RequestFault {
    /// The text that describes the fault (see `fault_message`).
    pub fn message(&self) -> (r: &'static str)
        ensures
            r@ == fault_message(*self),
    {
        match self {
            RequestFault::MissingMapId => "X-Map-ID not found",
            RequestFault::MissingGameId => "X-Game-ID not found",
            RequestFault::HeaderNotText => "header value is not visible ASCII",
            RequestFault::InvalidNumber => "invalid number",
            RequestFault::MissingIdentifier => "missing identifier",
            RequestFault::BodyNotUtf8 => "Invalid UTF-8",
            RequestFault::InteriorNul => "Invalid UTF-8",
            RequestFault::TooLong => "length does not fit in i32",
        }
    }
}

/// A byte that `HeaderValue::to_str` accepts: visible ASCII or a tab.
pub open spec fn is_visible_ascii(b: u8) -> bool {
    (32 <= b && b < 127) || b == 9
}

/// The characters of ASCII bytes.
pub open spec fn ascii_chars(b: Seq<u8>) -> Seq<char> {
    b.map_values(|x: u8| x as char)
}

/// `http::HeaderValue::from_bytes` followed by `HeaderValue::to_str`. The
/// contract claims what the `http` source shows: the text is produced exactly
/// when every byte is visible ASCII or a tab (`from_bytes` refuses only bytes
/// that `to_str` refuses too), and it is those bytes read as characters.
#[verifier::external_body]
fn header_text(value: &[u8]) -> (r: Option<String>)
    ensures
        r is Some <==> (forall|i: int| 0 <= i < value@.len() ==> is_visible_ascii(#[trigger] value@[i])),
        r matches Some(s) ==> s@ == ascii_chars(value@),
{
    match http::HeaderValue::from_bytes(value) {
        Ok(v) => match v.to_str() {
            Ok(s) => Some(s.to_string()),
            Err(_) => None,
        },
        Err(_) => None,
    }
}

/// The number a header carries, as the handlers read it: the header must be
/// present (else `missing`), be visible ASCII text, and parse as a `u64`.
pub open spec fn header_number(value: Option<Seq<u8>>, missing: RequestFault) -> Result<u64, RequestFault> {
    match value {
        None => Err(missing),
        Some(b) => if forall|i: int| 0 <= i < b.len() ==> is_visible_ascii(#[trigger] b[i]) {
            match parse_u64_spec(ascii_chars(b)) {
                Some(n) => Ok(n),
                None => Err(RequestFault::InvalidNumber),
            }
        } else {
            Err(RequestFault::HeaderNotText)
        },
    }
}

/// Reads the number a header carries (see `header_number`).
pub fn header_id(value: Option<&[u8]>, missing: RequestFault) -> (r: Result<u64, RequestFault>)
    ensures
        r == header_number(
            match value {
                Some(b) => Some(b@),
                None => None,
            },
            missing,
        ),
{
    match value {
        None => Err(missing),
        Some(b) => match header_text(b) {
            None => Err(RequestFault::HeaderNotText),
            Some(text) => {
                let c = chars_of(text.as_str());
                match parse_u64(c.as_slice()) {
                    Some(n) => Ok(n),
                    None => Err(RequestFault::InvalidNumber),
                }
            },
        },
    }
}


/// `String::from_utf8`. The contract claims what the standard library
/// documents: the text is produced exactly when the bytes are valid UTF-8,
/// and its UTF-8 encoding is those bytes.
#[verifier::external_body]
pub(crate) fn utf8_text(bytes: &[u8]) -> (r: Option<String>)
    ensures
        r is Some <==> valid_utf8(bytes@),
        r matches Some(s) ==> encode_utf8(s@) == bytes@,
{
    match String::from_utf8(bytes.to_vec()) {
        Ok(s) => Some(s),
        Err(_) => None,
    }
}

/// Tests whether `bytes` holds a zero byte.
pub fn has_nul_byte(bytes: &[u8]) -> (r: bool)
    ensures
        r == bytes@.contains(0u8),
{
    let n = bytes.len();
    for i in 0..n
        invariant
            n == bytes@.len(),
            forall|k: int| 0 <= k < i ==> bytes@[k] != 0u8,
    {
        if bytes[i] == 0 {
            assert(bytes@[i as int] == 0u8);
            return true;
        }
    }
    false
}

/// Tests whether `s` holds a NUL character.
pub fn has_nul_char(s: &[char]) -> (r: bool)
    ensures
        r == s@.contains('\0'),
{
    let n = s.len();
    for i in 0..n
        invariant
            n == s@.len(),
            forall|k: int| 0 <= k < i ==> s@[k] != '\0',
    {
        if s[i] == '\0' {
            assert(s@[i as int] == '\0');
            return true;
        }
    }
    false
}

/// A header that carries the decimal digits of a number reads as that
/// number.
pub proof fn law_decimal_header_reads_back(value: Seq<u8>, n: u64, missing: RequestFault)
    requires
        ascii_chars(value) == crate::text::decimal(n as nat),
    ensures
        header_number(Some(value), missing) == Ok::<u64, RequestFault>(n),
{
    crate::text::lemma_decimal_digits(n as nat);
    crate::text::law_decimal_parses_back(n);
    assert forall|i: int| 0 <= i < value.len() implies is_visible_ascii(#[trigger] value[i]) by {
        assert(ascii_chars(value)[i] == value[i] as char);
        assert(crate::text::is_digit(crate::text::decimal(n as nat)[i]));
    }
}

} // verus!
