//! Request methods.

use crate::text::same_text;
use vstd::prelude::*;

verus! {

/// The request methods that can be routed, and `INVALID` for every token
/// that names none of them.
///
/// `OPTION` is the `OPTIONS` method of HTTP.
#[derive(Clone, Copy, Debug, PartialEq, Eq, Structural, PartialOrd, Ord, Hash)]
pub enum HTTPMethod {
    GET,
    HEAD,
    POST,
    PUT,
    DELETE,
    CONNECT,
    OPTION,
    TRACE,
    PATCH,
    INVALID,
}

/// The method that a request-line token names. The match is exact: case
/// matters and nothing may precede or follow the name.
pub open spec fn method_of(token: Seq<char>) -> HTTPMethod {
    if token == "GET"@ {
        HTTPMethod::GET
    } else if token == "HEAD"@ {
        HTTPMethod::HEAD
    } else if token == "POST"@ {
        HTTPMethod::POST
    } else if token == "PUT"@ {
        HTTPMethod::PUT
    } else if token == "DELETE"@ {
        HTTPMethod::DELETE
    } else if token == "CONNECT"@ {
        HTTPMethod::CONNECT
    } else if token == "OPTIONS"@ {
        HTTPMethod::OPTION
    } else if token == "TRACE"@ {
        HTTPMethod::TRACE
    } else if token == "PATCH"@ {
        HTTPMethod::PATCH
    } else {
        HTTPMethod::INVALID
    }
}

impl HTTPMethod {
    /// Reads a method from the first token of a request line.
    pub fn from_token(token: &str) -> (method: HTTPMethod)
        ensures
            method == method_of(token@),
    {
        if same_text(token, "GET") {
            HTTPMethod::GET
        } else if same_text(token, "HEAD") {
            HTTPMethod::HEAD
        } else if same_text(token, "POST") {
            HTTPMethod::POST
        } else if same_text(token, "PUT") {
            HTTPMethod::PUT
        } else if same_text(token, "DELETE") {
            HTTPMethod::DELETE
        } else if same_text(token, "CONNECT") {
            HTTPMethod::CONNECT
        } else if same_text(token, "OPTIONS") {
            HTTPMethod::OPTION
        } else if same_text(token, "TRACE") {
            HTTPMethod::TRACE
        } else if same_text(token, "PATCH") {
            HTTPMethod::PATCH
        } else {
            HTTPMethod::INVALID
        }
    }
}

} // verus!
