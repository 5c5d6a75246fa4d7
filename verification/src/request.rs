//! Requests: the parser for the head of a request and the decoding of its
//! body.
//!
//! The head is the text up to and including the empty line that ends the
//! header fields. It is split into lines at every line feed. The first line
//! is the request line; each later line that holds a colon is a header
//! field. A carriage return before the line feed is not part of the
//! grammar: it ends up in the last token of the request line and is trimmed
//! away from header values with the rest of the whitespace.

use crate::assoc::{as_map, lemma_put, put};
use crate::decimal::{parse_decimal, usize_value};
use crate::method::{method_of, HTTPMethod};
use crate::route::{lemma_trailing_slashes_ignored, normalize_path, normalized_path, RouteView};
use crate::string_map::{Pairs, StringMap};
use crate::text::{
    find_char, has_prefix, index_of, lemma_index_of_unique, lemma_pieces_at_separator,
    lemma_pieces_without_separator, pieces, split, starts_with, trim, trimmed, views,
};
use vstd::prelude::*;
use vstd::string::*;
use vstd::utf8::{decode_utf8, encode_utf8, encode_utf8_decode_utf8, valid_utf8};

verus! {

/// Why the head of a request cannot be read.
#[derive(Clone, Copy, Debug, PartialEq, Eq, Structural)]
pub enum HeadError {
    /// The text has fewer than three lines.
    TooFewLines,
    /// The request line has fewer than three tokens.
    MalformedRequestLine,
    /// The first token of the request line names no known method.
    UnknownMethod,
}

/// The head of a request: everything that is known before the body is read.
#[derive(Debug)]
pub struct RequestHead {
    pub method: HTTPMethod,
    pub path: String,
    pub query: StringMap,
    pub headers: StringMap,
    pub content_length: usize,
}

/// The mathematical content of a request head.
pub struct HeadView {
    pub method: HTTPMethod,
    pub path: Seq<char>,
    pub query: Pairs,
    pub headers: Pairs,
    pub content_length: usize,
}

impl View for RequestHead {
    type V = HeadView;

    open spec fn view(&self) -> HeadView {
        HeadView {
            method: self.method,
            path: self.path@,
            query: self.query.pairs(),
            headers: self.headers.pairs(),
            content_length: self.content_length,
        }
    }
}

/// A request as a handler sees it.
#[derive(Debug)]
pub struct Request {
    pub method: HTTPMethod,
    pub path: String,
    pub query: StringMap,
    pub headers: StringMap,
    pub body: String,
}

/// The mathematical content of a request.
pub struct RequestView {
    pub method: HTTPMethod,
    pub path: Seq<char>,
    pub query: Pairs,
    pub headers: Pairs,
    pub body: Seq<char>,
}

impl View for Request {
    type V = RequestView;

    open spec fn view(&self) -> RequestView {
        RequestView {
            method: self.method,
            path: self.path@,
            query: self.query.pairs(),
            headers: self.headers.pairs(),
            body: self.body@,
        }
    }
}

impl RequestView {
    /// The key under which the handler of this request is looked up.
    pub open spec fn route(self) -> RouteView {
        RouteView { method: self.method, location: self.path }
    }
}

/// The part of a request target before the first `?`.
pub open spec fn target_path(target: Seq<char>) -> Seq<char> {
    target.take(index_of(target, '?'))
}

/// The part of a request target after the first `?`, empty where there is
/// none. Later question marks belong to the query.
pub open spec fn target_query(target: Seq<char>) -> Seq<char> {
    let i = index_of(target, '?');
    if 0 <= i < target.len() {
        target.skip(i + 1)
    } else {
        Seq::<char>::empty()
    }
}

/// The parameters that a list of query tokens defines. A token counts only
/// if it holds exactly one `=`; what stands before it is the key, what
/// stands after it the value. A later token overrides an earlier one with
/// the same key.
pub open spec fn query_of_tokens(tokens: Seq<Seq<char>>) -> Pairs
    decreases tokens.len(),
{
    if tokens.len() == 0 {
        Pairs::empty()
    } else {
        let before = query_of_tokens(tokens.drop_last());
        let sides = pieces(tokens.last(), '=');
        if sides.len() == 2 {
            put(before, sides[0], sides[1])
        } else {
            before
        }
    }
}

/// The parameters of a query string: its tokens are separated by `&`.
pub open spec fn query_pairs(query: Seq<char>) -> Pairs {
    query_of_tokens(pieces(query, '&'))
}

/// The header field on a line: the key is what stands before the first
/// colon, taken as it is; the value is the rest without the whitespace
/// around it. A line without a colon is no field.
pub open spec fn header_field(line: Seq<char>) -> Option<(Seq<char>, Seq<char>)> {
    let i = index_of(line, ':');
    if 0 <= i < line.len() {
        Some((line.take(i), trimmed(line.skip(i + 1))))
    } else {
        None
    }
}

/// The header fields that a list of lines defines. A later field overrides
/// an earlier one with the same key.
pub open spec fn header_pairs(lines: Seq<Seq<char>>) -> Pairs
    decreases lines.len(),
{
    if lines.len() == 0 {
        Pairs::empty()
    } else {
        let before = header_pairs(lines.drop_last());
        match header_field(lines.last()) {
            Some((key, value)) => put(before, key, value),
            None => before,
        }
    }
}

/// The body length that a list of header lines announces: the value of the
/// last field whose line begins with `Content-Length`, or 0 where that value
/// is no number that fits `usize`, or where there is no such field. Any
/// length that fits `usize` can be announced.
pub open spec fn announced_length(lines: Seq<Seq<char>>) -> usize
    decreases lines.len(),
{
    if lines.len() == 0 {
        0
    } else {
        match header_field(lines.last()) {
            Some(field) if has_prefix(lines.last(), "Content-Length"@) => match usize_value(
                field.1,
            ) {
                Some(n) => n,
                None => 0,
            },
            _ => announced_length(lines.drop_last()),
        }
    }
}

/// What the head `text` of a request says, or why it cannot be read.
pub open spec fn parsed_head(text: Seq<char>) -> Result<HeadView, HeadError> {
    let lines = pieces(text, '\n');
    if lines.len() < 3 {
        Err(HeadError::TooFewLines)
    } else {
        let tokens = pieces(lines[0], ' ');
        if tokens.len() < 3 {
            Err(HeadError::MalformedRequestLine)
        } else if method_of(tokens[0]) == HTTPMethod::INVALID {
            Err(HeadError::UnknownMethod)
        } else {
            Ok(
                HeadView {
                    method: method_of(tokens[0]),
                    path: normalized_path(target_path(tokens[1])),
                    query: query_pairs(target_query(tokens[1])),
                    headers: header_pairs(lines.skip(1)),
                    content_length: announced_length(lines.skip(1)),
                },
            )
        }
    }
}

/// The text of a body: the bytes decoded as UTF-8, or nothing where they
/// are not valid UTF-8.
pub open spec fn body_text(bytes: Seq<u8>) -> Seq<char> {
    if valid_utf8(bytes) {
        decode_utf8(bytes)
    } else {
        Seq::<char>::empty()
    }
}

/// A line with a field sets that field in the map of header fields, and a
/// line without one leaves the map as it is: of two fields with the same
/// key the later one counts.
pub proof fn lemma_header_line(lines: Seq<Seq<char>>, line: Seq<char>)
    ensures
        match header_field(line) {
            Some((key, value)) => as_map(header_pairs(lines.push(line))) == as_map(
                header_pairs(lines),
            ).insert(key, value),
            None => header_pairs(lines.push(line)) == header_pairs(lines),
        },
{
    assert(lines.push(line).drop_last() =~= lines);
    if let Some((key, value)) = header_field(line) {
        lemma_put(header_pairs(lines), key, value);
    }
}

/// A query token without `=` defines no parameter.
pub proof fn lemma_keyless_token_is_dropped(tokens: Seq<Seq<char>>, token: Seq<char>)
    requires
        !token.contains('='),
    ensures
        query_of_tokens(tokens.push(token)) == query_of_tokens(tokens),
{
    lemma_pieces_without_separator(token, '=');
    assert(tokens.push(token).drop_last() =~= tokens);
}

/// A query token of the form `key=value`, with no further `=`, gives `key`
/// the value `value`.
pub proof fn lemma_token_sets_parameter(
    tokens: Seq<Seq<char>>,
    key: Seq<char>,
    value: Seq<char>,
)
    requires
        !key.contains('='),
        !value.contains('='),
    ensures
        query_of_tokens(tokens.push(key.push('=') + value)) == put(
            query_of_tokens(tokens),
            key,
            value,
        ),
        as_map(query_of_tokens(tokens.push(key.push('=') + value))) == as_map(
            query_of_tokens(tokens),
        ).insert(key, value),
{
    let token = key.push('=') + value;
    assert(token.take(key.len() as int) =~= key);
    assert(token.skip(key.len() as int + 1) =~= value);
    lemma_pieces_at_separator(token, '=', key.len() as int);
    lemma_pieces_without_separator(value, '=');
    assert(tokens.push(token).drop_last() =~= tokens);
    lemma_put(query_of_tokens(tokens), key, value);
}

/// Slashes at the end of the path of a target, before the query if there is
/// one, do not change the path that the target is routed by.
pub proof fn lemma_target_ignores_trailing_slashes(
    path: Seq<char>,
    count: nat,
    query: Seq<char>,
)
    requires
        path.len() > 0,
        !path.contains('?'),
    ensures
        normalized_path(target_path(path + Seq::new(count, |i: int| '/'))) == normalized_path(
            path,
        ),
        normalized_path(target_path((path + Seq::new(count, |i: int| '/')).push('?') + query))
            == normalized_path(path),
        target_query((path + Seq::new(count, |i: int| '/')).push('?') + query) == query,
{
    // No question mark stands in the padded path, so the first one of the
    // target is the one that was put behind it.
    let padded = path + Seq::new(count, |i: int| '/');
    let target = padded.push('?') + query;
    lemma_index_of_unique(padded, '?', padded.len() as int);
    lemma_index_of_unique(target, '?', padded.len() as int);
    assert(padded.take(padded.len() as int) =~= padded);
    assert(target.take(padded.len() as int) =~= padded);
    lemma_trailing_slashes_ignored(path, count);
}

/// Splits a request target into its path and its query string.
pub fn split_target<'a>(target: &'a str) -> (r: (&'a str, &'a str))
    ensures
        r.0@ == target_path(target@),
        r.1@ == target_query(target@),
{
    let len = target.unicode_len();
    match find_char(target, '?') {
        Some(i) => (target.substring_char(0, i), target.substring_char(i + 1, len)),
        None => (target.substring_char(0, len), target.substring_char(len, len)),
    }
}

/// Reads the parameters of a query string.
pub fn parse_query(query: &str) -> (params: StringMap)
    ensures
        params.pairs() == query_pairs(query@),
{
    let tokens = split(query, '&');
    let mut params = StringMap::new();
    let mut i: usize = 0;
    while i < tokens.len()
        invariant
            i <= tokens.len(),
            params.pairs() == query_of_tokens(views(tokens@).take(i as int)),
        decreases tokens.len() - i,
    {
        proof {
            assert(views(tokens@).take(i + 1).drop_last() =~= views(tokens@).take(i as int));
        }
        let sides = split(tokens[i], '=');
        if sides.len() == 2 {
            params.insert(String::from_str(sides[0]), String::from_str(sides[1]));
        }
        i += 1;
    }
    assert(views(tokens@).take(tokens.len() as int) =~= views(tokens@));
    params
}

/// Reads the header field on a line, if the line holds one.
pub fn split_field<'a>(line: &'a str) -> (r: Option<(&'a str, &'a str)>)
    ensures
        match r {
            Some((key, value)) => header_field(line@) == Some((key@, value@)),
            None => header_field(line@) is None,
        },
{
    let len = line.unicode_len();
    match find_char(line, ':') {
        Some(i) => Some((line.substring_char(0, i), trim(line.substring_char(i + 1, len)))),
        None => None,
    }
}

/// Reads the header fields from the lines that follow the request line.
pub fn parse_fields(lines: &Vec<&str>) -> (fields: StringMap)
    ensures
        fields.pairs() == header_pairs(views(lines@)),
{
    let mut fields = StringMap::new();
    let mut i: usize = 0;
    while i < lines.len()
        invariant
            i <= lines.len(),
            fields.pairs() == header_pairs(views(lines@).take(i as int)),
        decreases lines.len() - i,
    {
        proof {
            assert(views(lines@).take(i + 1).drop_last() =~= views(lines@).take(i as int));
        }
        match split_field(lines[i]) {
            Some((key, value)) => {
                fields.insert(String::from_str(key), String::from_str(value));
            },
            None => {},
        }
        i += 1;
    }
    assert(views(lines@).take(lines.len() as int) =~= views(lines@));
    fields
}

/// Reads the announced body length from the lines that follow the request
/// line.
pub fn parse_content_length(lines: &Vec<&str>) -> (length: usize)
    ensures
        length == announced_length(views(lines@)),
{
    let mut length: usize = 0;
    let mut i: usize = 0;
    while i < lines.len()
        invariant
            i <= lines.len(),
            length == announced_length(views(lines@).take(i as int)),
        decreases lines.len() - i,
    {
        proof {
            assert(views(lines@).take(i + 1).drop_last() =~= views(lines@).take(i as int));
        }
        match split_field(lines[i]) {
            Some((_, value)) => {
                if starts_with(lines[i], "Content-Length") {
                    length = match parse_decimal(value) {
                        Some(n) => n,
                        None => 0,
                    };
                }
            },
            None => {},
        }
        i += 1;
    }
    assert(views(lines@).take(lines.len() as int) =~= views(lines@));
    length
}

/// Reads the head of a request.
pub fn parse_head(text: &str) -> (r: Result<RequestHead, HeadError>)
    ensures
        match r {
            Ok(head) => parsed_head(text@) == Ok::<HeadView, HeadError>(head@),
            Err(e) => parsed_head(text@) == Err::<HeadView, HeadError>(e),
        },
{
    let mut lines = split(text, '\n');
    if lines.len() < 3 {
        return Err(HeadError::TooFewLines);
    }
    let ghost all = views(lines@);
    let request_line = lines.remove(0);
    assert(views(lines@) =~= all.skip(1));
    let tokens = split(request_line, ' ');
    if tokens.len() < 3 {
        return Err(HeadError::MalformedRequestLine);
    }
    let method = HTTPMethod::from_token(tokens[0]);
    if method == HTTPMethod::INVALID {
        return Err(HeadError::UnknownMethod);
    }
    let (path, query) = split_target(tokens[1]);
    Ok(
        RequestHead {
            method,
            path: String::from_str(normalize_path(path)),
            query: parse_query(query),
            headers: parse_fields(&lines),
            content_length: parse_content_length(&lines),
        },
    )
}

/// `String::from_utf8` of the standard library. The call succeeds exactly on
/// valid UTF-8, and the string it gives is made of the very bytes it was
/// given. Validity and the bytes of a string are those of `vstd::utf8`.
#[verifier::external_body]
fn string_from_utf8(bytes: Vec<u8>) -> (r: Option<String>)
    ensures
        match r {
            Some(text) => valid_utf8(bytes@) && encode_utf8(text@) == bytes@,
            None => !valid_utf8(bytes@),
        },
{
    String::from_utf8(bytes).ok()
}

/// Decodes the bytes of a body. Bytes that are not valid UTF-8 give an
/// empty body.
pub fn decode_body(bytes: Vec<u8>) -> (body: String)
    ensures
        body@ == body_text(bytes@),
{
    match string_from_utf8(bytes) {
        Some(text) => {
            proof {
                encode_utf8_decode_utf8(text@);
            }
            text
        },
        None => String::new(),
    }
}

impl RequestHead {
    /// The request that this head and `body` make up.
    pub fn with_body(self, body: String) -> (request: Request)
        ensures
            request@ == (RequestView {
                method: self.method,
                path: self.path@,
                query: self.query.pairs(),
                headers: self.headers.pairs(),
                body: body@,
            }),
    {
        Request {
            method: self.method,
            path: self.path,
            query: self.query,
            headers: self.headers,
            body,
        }
    }
}

} // verus!
