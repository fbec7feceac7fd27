//! The answers that the server and the proxy give of their own.

use vstd::prelude::*;

verus! {

/// The statuses that are answered with.
#[derive(Clone, Copy, Debug, PartialEq, Eq, Structural)]
pub enum Status {
    Success,
    BadRequest,
    Unauthorized,
    NotFound,
    ProxyAuthenticationRequired,
    InternalServerError,
    BadGateway,
}

/// The HTTP status code of `status`.
pub open spec fn status_code(status: Status) -> u16 {
    match status {
        Status::Success => 200,
        Status::BadRequest => 400,
        Status::Unauthorized => 401,
        Status::NotFound => 404,
        Status::ProxyAuthenticationRequired => 407,
        Status::InternalServerError => 500,
        Status::BadGateway => 502,
    }
}

impl Status {
    /// The HTTP status code.
    pub fn code(&self) -> (r: u16)
        ensures
            r == status_code(*self),
    {
        match self {
            Status::Success => 200,
            Status::BadRequest => 400,
            Status::Unauthorized => 401,
            Status::NotFound => 404,
            Status::ProxyAuthenticationRequired => 407,
            Status::InternalServerError => 500,
            Status::BadGateway => 502,
        }
    }
}

/// What a `Response` holds.
pub struct ResponseView {
    pub status: Status,
    pub body: Seq<u8>,
}

/// An answer: a status and a body.
pub struct Response {
    pub status: Status,
    pub body: Vec<u8>,
}

impl View for Response {
    type V = ResponseView;

    open spec fn view(&self) -> ResponseView {
        ResponseView { status: self.status, body: self.body@ }
    }
}

/// The answer whose body is `text`.
pub open spec fn text_answer(status: Status, text: Seq<char>) -> ResponseView {
    ResponseView { status, body: vstd::utf8::encode_utf8(text) }
}

/// The answer with an empty body.
pub open spec fn empty_answer(status: Status) -> ResponseView {
    ResponseView { status, body: Seq::empty() }
}

impl Response {
    /// The answer whose body is `text`.
    pub fn text(status: Status, text: &str) -> (r: Response)
        ensures
            r@ == text_answer(status, text@),
    {
        Response { status, body: text.as_bytes_vec() }
    }

    /// The answer with an empty body.
    pub fn empty(status: Status) -> (r: Response)
        ensures
            r@ == empty_answer(status),
    {
        Response { status, body: Vec::new() }
    }
}

/// The statuses have the codes that HTTP gives them.
pub proof fn law_status_codes()
    ensures
        status_code(Status::Success) == 200,
        status_code(Status::BadRequest) == 400,
        status_code(Status::Unauthorized) == 401,
        status_code(Status::NotFound) == 404,
        status_code(Status::ProxyAuthenticationRequired) == 407,
        status_code(Status::InternalServerError) == 500,
        status_code(Status::BadGateway) == 502,
{
}

/// An answer has the status and the body of its response.
pub proof fn law_response_view(response: Response)
    ensures
        response@.status == response.status,
        response@.body == response.body@,
{
}

/// A text answer has the given status, and its body decodes to the given text; an empty answer has
/// nothing in its body.
pub proof fn law_own_answers(status: Status, text: Seq<char>)
    ensures
        text_answer(status, text).status == status,
        vstd::utf8::valid_utf8(text_answer(status, text).body),
        vstd::utf8::decode_utf8(text_answer(status, text).body) == text,
        empty_answer(status).status == status,
        empty_answer(status).body.len() == 0,
{
    vstd::utf8::encode_utf8_valid_utf8(text);
    vstd::utf8::encode_utf8_decode_utf8(text);
}

} // verus!
