//! The parts of HTTP that requests and responses are made of.

use vstd::prelude::*;

verus! {

/// Method of a request.
#[derive(Debug, Clone, Copy, PartialEq, Eq, Structural)]
pub enum Method {
    /// Ask for a resource.
    Get,
    /// Set a resource.
    Put,
    /// Change a resource.
    Patch,
    /// Remove a resource.
    Delete,
}

impl Method {
    /// How the method is written.
    pub open spec fn text(self) -> Seq<char> {
        match self {
            Method::Get => "GET"@,
            Method::Put => "PUT"@,
            Method::Patch => "PATCH"@,
            Method::Delete => "DELETE"@,
        }
    }

    /// How the method is written.
    pub fn to_str(self) -> (r: &'static str)
        ensures
            r@ == self.text(),
    {
        match self {
            Method::Get => "GET",
            Method::Put => "PUT",
            Method::Patch => "PATCH",
            Method::Delete => "DELETE",
        }
    }
}

/// Status of a response.
#[derive(Debug, Clone, Copy, PartialEq, Eq, Structural)]
pub enum StatusCode {
    /// 200
    OK,
    /// 204
    NoContent,
    /// 400
    BadRequest,
    /// 401
    Unauthorized,
    /// 404
    NotFound,
    /// 405
    MethodNotAllowed,
    /// 413
    PayloadTooLarge,
    /// 501
    NotImplemented,
}

/// A response.
#[derive(Debug)]
pub struct Response {
    /// Status.
    pub status: StatusCode,
    /// Body.
    pub body: Option<String>,
    /// Whether the response says that the request is deprecated.
    pub deprecation: bool,
}

} // verus!
