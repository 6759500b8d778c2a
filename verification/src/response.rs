//! Responses: one of three fixed heads, and a body.

use vstd::prelude::*;
use vstd::string::StringExecFns;

verus! {

/// The head of a response that succeeded: status line, content type and
/// the headers that let a page of any origin call the service.
pub const OK_RESPONSE: &'static str =
    "HTTP/1.1 200 OK\r\nContent-Type: application/json\r\nAccess-Control-Allow-Origin: *\r\nAccess-Control-Allow-Methods: GET, POST, PUT, DELETE\r\nAccess-Control-Allow-Headers: Content-Type\r\n\r\n";

/// The head of a response to a request for what does not exist.
pub const NOT_FOUND: &'static str = "HTTP/1.1 404 NOT Found\r\n\r\n";

/// The head of a response to a request that could not be read or served.
pub const INTERNAL_ERROR: &'static str = "HTTP/1.1 500 INTERNAL ERROR\r\n\r\n";

/// How a request ended.
#[derive(Debug, Clone, Copy, PartialEq, Eq, Structural)]
pub enum Status {
    Success,
    NotFound,
    InternalError,
}

/// A response: its status and its body, which is JSON text or empty.
#[derive(Debug, Clone, PartialEq, Eq)]
pub struct Response {
    pub status: Status,
    pub body: String,
}

/// A response as plain values.
pub ghost struct ResponseView {
    pub status: Status,
    pub body: Seq<char>,
}

impl View for Response {
    type V = ResponseView;

    open spec fn view(&self) -> ResponseView {
        ResponseView { status: self.status, body: self.body@ }
    }
}

/// The number of a status.
pub open spec fn code_of(status: Status) -> int {
    match status {
        Status::Success => 200,
        Status::NotFound => 404,
        Status::InternalError => 500,
    }
}

/// The head that a response of this status begins with.
pub open spec fn head_of(status: Status) -> Seq<char> {
    match status {
        Status::Success => OK_RESPONSE@,
        Status::NotFound => NOT_FOUND@,
        Status::InternalError => INTERNAL_ERROR@,
    }
}

/// The text that goes to the client: the head, then the body.
pub open spec fn response_text(response: ResponseView) -> Seq<char> {
    head_of(response.status) + response.body
}

/// The response of a status without a body.
pub open spec fn bare(status: Status) -> ResponseView {
    ResponseView { status, body: Seq::empty() }
}

impl Status {
    /// The number of this status.
    pub fn code(&self) -> (r: u16)
        ensures
            r == code_of(*self),
    {
        match self {
            Status::Success => 200,
            Status::NotFound => 404,
            Status::InternalError => 500,
        }
    }

    /// The head that a response of this status begins with.
    pub fn head(&self) -> (r: &'static str)
        ensures
            r@ == head_of(*self),
    {
        match self {
            Status::Success => OK_RESPONSE,
            Status::NotFound => NOT_FOUND,
            Status::InternalError => INTERNAL_ERROR,
        }
    }
}

impl Response {
    /// A response of `status` without a body.
    pub fn empty(status: Status) -> (r: Response)
        ensures
            r@ == bare(status),
    {
        Response { status, body: String::new() }
    }

    /// A successful response with `body`.
    pub fn ok(body: String) -> (r: Response)
        ensures
            r@ == (ResponseView { status: Status::Success, body: body@ }),
    {
        Response { status: Status::Success, body }
    }

    /// The text that goes to the client.
    pub fn to_text(&self) -> (r: String)
        ensures
            r@ == response_text(self@),
    {
        let mut out = String::from_str(self.status.head());
        out.append(self.body.as_str());
        out
    }
}

} // verus!
