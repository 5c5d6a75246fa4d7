//! Responses: the record a handler returns, the built-in answers, and the
//! text that goes on the wire.

use crate::decimal::{decimal, format_decimal};
use crate::status::HTTPStatus;
use crate::string_map::{Pairs, StringMap};
use vstd::prelude::*;
use vstd::string::*;
use vstd::utf8::{encode_utf8, is_ascii_chars_encode_utf8};

verus! {

/// A response as a handler returns it.
#[derive(Debug)]
pub struct HTTPResponse {
    pub status: HTTPStatus,
    pub body: String,
    pub headers: StringMap,
}

/// The mathematical content of a response. The header fields are kept in
/// the order in which they will be written.
pub struct ResponseView {
    pub status: u16,
    pub reason: Seq<char>,
    pub headers: Pairs,
    pub body: Seq<char>,
}

impl View for HTTPResponse {
    type V = ResponseView;

    open spec fn view(&self) -> ResponseView {
        ResponseView {
            status: self.status.status,
            reason: self.status.reason@,
            headers: self.headers.pairs(),
            body: self.body@,
        }
    }
}

/// The number of bytes that `s` takes in UTF-8.
pub open spec fn byte_len(s: Seq<char>) -> nat {
    encode_utf8(s).len()
}

/// The single header field that announces the length of `body` in bytes.
pub open spec fn content_length_header(body: Seq<char>) -> Pairs {
    seq![("Content-Length"@, decimal(byte_len(body)))]
}

/// A `200 OK` response that carries `body`.
pub open spec fn ok_response(body: Seq<char>) -> ResponseView {
    ResponseView { status: 200, reason: "OK"@, headers: content_length_header(body), body }
}

/// The answer to a request that no handler takes.
pub open spec fn not_found_response() -> ResponseView {
    ResponseView {
        status: 404,
        reason: "Not Found"@,
        headers: seq![("Content-Length"@, "56"@)],
        body: "The requested resource hasn't been found on this server."@,
    }
}

/// The answer to a request that cannot be read.
pub open spec fn bad_request_response() -> ResponseView {
    ResponseView {
        status: 400,
        reason: "Bad Request"@,
        headers: seq![("Content-Length"@, "21"@)],
        body: "Received invalid data"@,
    }
}

/// One header field on the wire: key and value joined by a colon, ended by a
/// line feed.
pub open spec fn header_line(field: (Seq<char>, Seq<char>)) -> Seq<char> {
    field.0 + seq![':'] + field.1 + seq!['\n']
}

/// The header fields on the wire, one line each, in order.
pub open spec fn header_lines(fields: Pairs) -> Seq<char>
    decreases fields.len(),
{
    if fields.len() == 0 {
        Seq::<char>::empty()
    } else {
        header_lines(fields.drop_last()) + header_line(fields.last())
    }
}

/// A whole response on the wire: status line, header lines, an empty line
/// and the body.
pub open spec fn wire_text(response: ResponseView) -> Seq<char> {
    "HTTP/1.1 "@ + decimal(response.status as nat) + " "@ + response.reason + "\r\n"@
        + header_lines(response.headers) + "\r\n"@ + response.body
}

/// The built-in responses announce the byte length of their bodies.
pub proof fn lemma_built_in_lengths()
    ensures
        not_found_response().headers == content_length_header(not_found_response().body),
        bad_request_response().headers == content_length_header(bad_request_response().body),
{
    let missing = "The requested resource hasn't been found on this server."@;
    let invalid = "Received invalid data"@;
    reveal_strlit("The requested resource hasn't been found on this server.");
    reveal_strlit("Received invalid data");
    reveal_strlit("56");
    reveal_strlit("21");
    is_ascii_chars_encode_utf8(missing);
    is_ascii_chars_encode_utf8(invalid);
    assert(decimal(56) =~= "56"@) by {
        reveal_with_fuel(decimal, 2);
    }
    assert(decimal(21) =~= "21"@) by {
        reveal_with_fuel(decimal, 2);
    }
}

/// A header map that holds `Content-Length` for `content` and nothing else.
pub fn default_headers(content: &String) -> (headers: StringMap)
    ensures
        headers.pairs() == content_length_header(content@),
{
    let length = content.as_str().as_bytes().len();
    let mut headers = StringMap::new();
    headers.insert(String::from_str("Content-Length"), format_decimal(length as u64));
    headers
}

/// A `200 OK` response with `body`, or with an empty body for `None`, and
/// the matching `Content-Length`.
pub fn response_200(body: Option<String>) -> (response: HTTPResponse)
    ensures
        response@ == ok_response(
            match body {
                Some(text) => text@,
                None => Seq::<char>::empty(),
            },
        ),
{
    let body = match body {
        Some(text) => text,
        None => String::new(),
    };
    let headers = default_headers(&body);
    HTTPResponse { status: HTTPStatus::new(200), headers, body }
}

/// The built-in `404 Not Found` response.
pub fn get_404_default_response() -> (response: HTTPResponse)
    ensures
        response@ == not_found_response(),
{
    let mut headers = StringMap::new();
    headers.insert(String::from_str("Content-Length"), String::from_str("56"));
    HTTPResponse {
        status: HTTPStatus::new(404),
        headers,
        body: String::from_str("The requested resource hasn't been found on this server."),
    }
}

/// The built-in `400 Bad Request` response.
pub fn get_400_default_response() -> (response: HTTPResponse)
    ensures
        response@ == bad_request_response(),
{
    let mut headers = StringMap::new();
    headers.insert(String::from_str("Content-Length"), String::from_str("21"));
    HTTPResponse {
        status: HTTPStatus::new(400),
        headers,
        body: String::from_str("Received invalid data"),
    }
}

/// Writes the header fields as they go on the wire.
pub fn parse_headers(headers: &StringMap) -> (text: String)
    ensures
        text@ == header_lines(headers.pairs()),
{
    let mut text = String::new();
    let count = headers.len();
    let mut i: usize = 0;
    while i < count
        invariant
            i <= count,
            count == headers.pairs().len(),
            text@ == header_lines(headers.pairs().take(i as int)),
        decreases count - i,
    {
        proof {
            reveal_strlit(":");
            reveal_strlit("\n");
            assert(headers.pairs().take(i + 1).drop_last() =~= headers.pairs().take(i as int));
        }
        match headers.entry(i) {
            Some((key, value)) => {
                text.append(key.as_str());
                text.append(":");
                text.append(value.as_str());
                text.append("\n");
            },
            None => {},
        }
        i += 1;
    }
    assert(headers.pairs().take(count as int) =~= headers.pairs());
    text
}

/// Writes a response as it goes on the wire.
pub fn serialize_response(response: &HTTPResponse) -> (text: String)
    ensures
        text@ == wire_text(response@),
{
    let mut text = String::from_str("HTTP/1.1 ");
    text.append(format_decimal(response.status.status as u64).as_str());
    text.append(" ");
    text.append(response.status.reason.as_str());
    text.append("\r\n");
    text.append(parse_headers(&response.headers).as_str());
    text.append("\r\n");
    text.append(response.body.as_str());
    text
}

} // verus!
