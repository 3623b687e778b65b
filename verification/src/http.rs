//! The parts of HTTP that the registry speaks: methods, status codes and
//! responses.

use crate::text::{eq_ignoring_case, matches_ignoring_case, pairs};
use vstd::prelude::*;

verus! {

/// The method of a request.
#[derive(Clone, Copy, Debug, PartialEq, Eq, Structural)]
pub enum Method {
    Get,
    Head,
    Post,
    Put,
    Patch,
    Delete,
    /// Any other method.
    Other,
}

/// The status of a response.
#[derive(Clone, Copy, Debug, PartialEq, Eq, Structural)]
pub enum StatusCode {
    Okay,
    Created,
    Accepted,
    NoContent,
    BadRequest,
    Unauthorized,
    NotFound,
    MethodNotAllowed,
    InternalServerError,
    BadGateway,
}

impl StatusCode {
    /// The number of the status.
    pub open spec fn code(self) -> u16 {
        match self {
            StatusCode::Okay => 200,
            StatusCode::Created => 201,
            StatusCode::Accepted => 202,
            StatusCode::NoContent => 204,
            StatusCode::BadRequest => 400,
            StatusCode::Unauthorized => 401,
            StatusCode::NotFound => 404,
            StatusCode::MethodNotAllowed => 405,
            StatusCode::InternalServerError => 500,
            StatusCode::BadGateway => 502,
        }
    }

    /// The number of the status.
    pub fn as_u16(self) -> (code: u16)
        ensures
            code == self.code(),
    {
        match self {
            StatusCode::Okay => 200,
            StatusCode::Created => 201,
            StatusCode::Accepted => 202,
            StatusCode::NoContent => 204,
            StatusCode::BadRequest => 400,
            StatusCode::Unauthorized => 401,
            StatusCode::NotFound => 404,
            StatusCode::MethodNotAllowed => 405,
            StatusCode::InternalServerError => 500,
            StatusCode::BadGateway => 502,
        }
    }
}

/// What a [`Response`] says.
pub struct ResponseView {
    pub status: StatusCode,
    pub headers: Seq<(Seq<char>, Seq<char>)>,
    pub body: Seq<u8>,
}

/// A response: status, headers in order, body.
#[derive(Debug, PartialEq, Eq)]
pub struct Response {
    pub status: StatusCode,
    pub headers: Vec<(String, String)>,
    pub body: Vec<u8>,
}

impl View for Response {
    type V = ResponseView;

    open spec fn view(&self) -> ResponseView {
        ResponseView { status: self.status, headers: pairs(self.headers@), body: self.body@ }
    }
}

/// The response with this status and these headers, and no body. It
/// says so itself in a last header, `Content-Length: 0`.
pub open spec fn bodiless(status: StatusCode, headers: Seq<(Seq<char>, Seq<char>)>) -> ResponseView {
    ResponseView {
        status,
        headers: headers.push(("Content-Length"@, "0"@)),
        body: Seq::empty(),
    }
}

impl Response {
    /// A response with this status, no header and no body.
    pub fn new(status: StatusCode) -> (response: Response)
        ensures
            response@ == (ResponseView {
                status,
                headers: Seq::empty(),
                body: Seq::empty(),
            }),
    {
        let response = Response { status, headers: Vec::new(), body: Vec::new() };
        assert(pairs(response.headers@) =~= Seq::empty());
        response
    }

    /// Adds a header after those that are there.
    pub fn header(&mut self, name: &str, value: String)
        ensures
            final(self)@ == (ResponseView {
                headers: old(self)@.headers.push((name@, value@)),
                ..old(self)@
            }),
    {
        self.headers.push((name.to_owned(), value));
        assert(pairs(self.headers@) =~= old(self)@.headers.push((name@, value@)));
    }

    /// Sets the body.
    pub fn body(&mut self, body: Vec<u8>)
        ensures
            final(self)@ == (ResponseView { body: body@, ..old(self)@ }),
    {
        self.body = body;
    }

    /// Makes this a response without a body, which it says in a last
    /// header, `Content-Length: 0`.
    pub fn no_body(&mut self)
        ensures
            final(self)@ == bodiless(old(self)@.status, old(self)@.headers),
    {
        self.body = Vec::new();
        self.header("Content-Length", "0".to_owned());
    }
}

/// The value of the first of `headers` that is named `name`, if there is
/// one. Names are compared without regard to case.
pub open spec fn first_value(headers: Seq<(Seq<char>, Seq<char>)>, name: Seq<char>) -> Option<
    Seq<char>,
>
    decreases headers.len(),
{
    if headers.len() == 0 {
        None
    } else if matches_ignoring_case(headers[0].0, name) {
        Some(headers[0].1)
    } else {
        first_value(headers.drop_first(), name)
    }
}

/// The value of the first of `headers` that is named `name`.
pub fn header_value<'a>(headers: &'a Vec<(String, String)>, name: &str) -> (value: Option<&'a str>)
    ensures
        match value {
            Some(found) => first_value(pairs(headers@), name@) == Some(found@),
            None => first_value(pairs(headers@), name@) is None,
        },
{
    let ghost all = pairs(headers@);
    let mut i: usize = 0;
    assert(all.skip(0) =~= all);
    while i < headers.len()
        invariant
            0 <= i <= headers.len(),
            all == pairs(headers@),
            first_value(all, name@) == first_value(all.skip(i as int), name@),
        decreases headers.len() - i,
    {
        proof {
            assert(all.skip(i as int)[0] == (headers@[i as int].0@, headers@[i as int].1@));
            assert(all.skip(i as int).drop_first() =~= all.skip(i + 1));
        }
        if eq_ignoring_case(headers[i].0.as_str(), name) {
            return Some(headers[i].1.as_str());
        }
        i += 1;
    }
    None
}

} // verus!
