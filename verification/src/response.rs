//! What the library answers an intercepted request with.
use vstd::prelude::*;

verus! {

/// An HTTP response to send back: status code, optional `content-type`
/// header and body text.
#[derive(Debug, PartialEq, Eq)]
pub struct ResponsePlan {
    pub status: u16,
    pub content_type: Option<String>,
    pub body: String,
}

/// What a `ResponsePlan` says, as plain values.
pub struct ResponseView {
    pub status: u16,
    pub content_type: Option<Seq<char>>,
    pub body: Seq<char>,
}

impl View for ResponsePlan {
    type V = ResponseView;

    open spec fn view(&self) -> ResponseView {
        ResponseView {
            status: self.status,
            content_type: match self.content_type {
                Some(t) => Some(t@),
                None => None,
            },
            body: self.body@,
        }
    }
}

/// A JSON response with the given status and body.
pub open spec fn json_view(status: u16, body: Seq<char>) -> ResponseView {
    ResponseView { status, content_type: Some(json_content_type()), body }
}

/// The `content-type` of the JSON answers.
pub open spec fn json_content_type() -> Seq<char> {
    "application/json; charset=utf-8"@
}

/// A response with the given status, no `content-type` and an empty body.
pub fn empty_response(status: u16) -> (r: ResponsePlan)
    ensures
        r@ == (ResponseView { status, content_type: None, body: Seq::<char>::empty() }),
{
    ResponsePlan { status, content_type: None, body: String::new() }
}

/// A JSON response with the given status and body.
pub fn json_response(status: u16, body: String) -> (r: ResponsePlan)
    ensures
        r@ == json_view(status, body@),
{
    ResponsePlan { status, content_type: Some("application/json; charset=utf-8".to_owned()), body }
}

/// The answer when the local map data layer produced a result (200 with the
/// JSON it produced) or did not (404).
pub fn json_or_not_found(data: Option<String>) -> (r: ResponsePlan)
    ensures
        r@ == match data {
            Some(d) => json_view(200, d@),
            None => ResponseView { status: 404, content_type: None, body: Seq::<char>::empty() },
        },
{
    match data {
        Some(d) => json_response(200, d),
        None => empty_response(404),
    }
}

} // verus!
