//! What a client is told.

use vstd::prelude::*;

verus! {

/// The status of a response.  There are only these two.
#[derive(Clone, Copy, Debug, PartialEq, Eq, Structural)]
pub enum Status {
    /// The operation succeeded.
    Success,
    /// The operation failed, for whatever reason, or there is no such
    /// operation.
    NotFound,
}

impl Status {
    /// The number that stands for the status on the wire.
    pub open spec fn code_spec(self) -> u16 {
        match self {
            Status::Success => 200,
            Status::NotFound => 404,
        }
    }

    /// The number that stands for the status on the wire.
    pub fn code(&self) -> (code: u16)
        ensures
            code == self.code_spec(),
    {
        match self {
            Status::Success => 200,
            Status::NotFound => 404,
        }
    }
}

/// A response: a status and, where there is something to say, a body of
/// plain text.
#[derive(Debug, PartialEq, Eq)]
pub struct Response {
    /// Whether the operation succeeded.
    pub status: Status,
    /// Whether the body is announced as `text/plain`.  A response without
    /// this announces no content type and has an empty body.
    pub text_plain: bool,
    /// The body.
    pub body: Vec<u8>,
}

/// A response as specifications see it.
pub struct ResponseView {
    pub status: Status,
    pub text_plain: bool,
    pub body: Seq<u8>,
}

impl View for Response {
    type V = ResponseView;

    open spec fn view(&self) -> ResponseView {
        ResponseView { status: self.status, text_plain: self.text_plain, body: self.body@ }
    }
}

impl ResponseView {
    /// Success with nothing to say.
    pub open spec fn success() -> ResponseView {
        ResponseView { status: Status::Success, text_plain: false, body: Seq::empty() }
    }

    /// Success with a body of plain text.
    pub open spec fn text(body: Seq<u8>) -> ResponseView {
        ResponseView { status: Status::Success, text_plain: true, body }
    }

    /// Failure.  It says nothing of the reason.
    pub open spec fn not_found() -> ResponseView {
        ResponseView { status: Status::NotFound, text_plain: false, body: Seq::empty() }
    }
}

impl Response {
    /// Success with nothing to say.
    pub fn success() -> (response: Response)
        ensures
            response@ == ResponseView::success(),
    {
        Response { status: Status::Success, text_plain: false, body: Vec::new() }
    }

    /// Success with a body of plain text.
    pub fn text(body: Vec<u8>) -> (response: Response)
        ensures
            response@ == ResponseView::text(body@),
    {
        Response { status: Status::Success, text_plain: true, body }
    }

    /// Failure.  It says nothing of the reason.
    pub fn not_found() -> (response: Response)
        ensures
            response@ == ResponseView::not_found(),
    {
        Response { status: Status::NotFound, text_plain: false, body: Vec::new() }
    }
}

} // verus!
