//! A minimal embeddable HTTP/1.1 server core.
//!
//! A host program registers handlers for pairs of method and path, and a
//! fallback for everything else. For each connection the server reads one
//! request, lets the matching handler answer it, writes the response and
//! closes.
//!
//! This crate holds the part of such a server that needs no socket and no
//! thread, each function of it with a contract that Verus checks:
//!
//! - [`request`]: the parser for the head of a request and the decoding of
//!   the body;
//! - [`method`], [`route`]: methods, routes, path normalization and the
//!   route table;
//! - [`response`], [`status`]: responses, the built-in answers, reason
//!   phrases and the text that goes on the wire;
//! - [`server`]: the choice of a handler and the state machine that takes a
//!   connection from its first line to the response;
//! - [`queue`]: the job queue between the accepting thread and the workers;
//! - [`string_map`], [`assoc`], [`text`], [`decimal`]: the maps and the text
//!   primitives that the rest is built on.
//!
//! The caller owns the sockets and the threads. It feeds the state machine
//! with what it reads and carries out what the machine asks for.

pub mod assoc;
pub mod decimal;
pub mod method;
pub mod queue;
pub mod request;
pub mod response;
pub mod route;
pub mod server;
pub mod status;
pub mod string_map;
pub mod text;

pub use decimal::{format_decimal, parse_decimal};
pub use method::HTTPMethod;
pub use queue::{JobQueue, Next};
pub use request::{
    decode_body, parse_content_length, parse_fields, parse_head, parse_query, split_field,
    split_target, HeadError, Request, RequestHead,
};
pub use response::{
    default_headers, get_400_default_response, get_404_default_response, parse_headers,
    response_200, serialize_response, HTTPResponse,
};
pub use route::{normalize_path, Route, RouteTable};
pub use server::{Action, Event, HTTPServer, Stage};
pub use status::{find_reason, http_code_reason, HTTPStatus};
pub use string_map::StringMap;
pub use text::{find_char, same_text, split, starts_with, trim, whitespace};
