//! The server: its configuration, the choice of a handler for a request,
//! and the state machine that takes one connection from the first line to
//! the response.
//!
//! The server does no input or output of its own. Whoever owns the socket
//! starts with [`Stage::new`], performs the [`Action`] that
//! [`HTTPServer::handle_event`] returns, and reports what happened as the
//! next [`Event`], until the action is [`Action::Send`] or
//! [`Action::Close`].

use crate::decimal::{decimal, format_decimal};
use crate::request::{
    body_text, decode_body, parse_head, parsed_head, HeadView, Request, RequestHead, RequestView,
};
use crate::response::{
    bad_request_response, byte_len, get_400_default_response, get_404_default_response,
    not_found_response, HTTPResponse,
};
use crate::route::{Route, RouteTable, RouteView};
use crate::string_map::StringMap;
use std::sync::Arc;
use vstd::prelude::*;
use vstd::string::*;

verus! {

/// An HTTP server: where it listens, what it serves and with how many
/// workers.
///
/// `T` is the context that every handler receives. `H` is the type of the
/// handlers: a function from the header fields, the body, the query
/// parameters and the context of a request to the response.
pub struct HTTPServer<T: Clone + Sync + Send + 'static, H> {
    pub address: String,
    pub port: u64,
    pub listeners: Arc<RouteTable<H>>,
    pub default_404_listener: Arc<Option<H>>,
    pub threads: usize,
    pub passthrough: T,
}

/// How far the exchange on one connection has come.
#[derive(Debug)]
pub enum Stage {
    /// The head is being read; the text holds the lines read so far.
    Head(String),
    /// The head has been read and the body is awaited.
    Body(RequestHead),
    /// The exchange is over.
    Done,
}

/// What happened on the connection since the last action.
#[derive(Debug)]
pub enum Event {
    /// A line was read, with its line feed if it has one. At the end of the
    /// stream the line is empty.
    Line(String),
    /// The bytes of the body were read.
    Body(Vec<u8>),
    /// Reading failed.
    Failed,
}

/// What to do next on the connection.
#[derive(Debug)]
pub enum Action {
    /// Read one more line and report it.
    ReadLine,
    /// Read exactly this many bytes and report them.
    ReadBody(usize),
    /// Write this response, flush, and close the connection.
    Send(HTTPResponse),
    /// Close the connection without a response.
    Close,
}

/// The mathematical content of a stage.
pub enum StageView {
    Head(Seq<char>),
    Body(HeadView),
    Done,
}

/// The mathematical content of an event.
pub enum EventView {
    Line(Seq<char>),
    Body(Seq<u8>),
    Failed,
}

impl View for Stage {
    type V = StageView;

    open spec fn view(&self) -> StageView {
        match self {
            Stage::Head(text) => StageView::Head(text@),
            Stage::Body(head) => StageView::Body(head@),
            Stage::Done => StageView::Done,
        }
    }
}

impl View for Event {
    type V = EventView;

    open spec fn view(&self) -> EventView {
        match self {
            Event::Line(line) => EventView::Line(line@),
            Event::Body(bytes) => EventView::Body(bytes@),
            Event::Failed => EventView::Failed,
        }
    }
}

/// What an event leads to at a stage, as far as it does not depend on a
/// handler.
pub enum Step {
    /// The head goes on: read another line.
    ReadLine { text: Seq<char> },
    /// The head is complete and valid: read the body.
    ReadBody { head: HeadView },
    /// The request cannot be read: answer `400 Bad Request`.
    Reject,
    /// The request is complete: let a handler answer it.
    Dispatch { request: RequestView },
    /// Nothing can be done: close the connection.
    Close,
}

/// The request that a head and the bytes of a body make up.
pub open spec fn request_of(head: HeadView, bytes: Seq<u8>) -> RequestView {
    RequestView {
        method: head.method,
        path: head.path,
        query: head.query,
        headers: head.headers,
        body: body_text(bytes),
    }
}

/// The transition function of a connection.
///
/// While the head is read, every line is added to the text. A line of fewer
/// than three bytes ends the head, which is then parsed: a valid head asks
/// for the body, an invalid one is rejected. When the body arrives with the
/// announced length, the request is dispatched. A failed read at either
/// stage, and a body of another length, are rejected. An event that does not
/// belong to the stage closes the connection.
pub open spec fn step(stage: StageView, event: EventView) -> Step {
    match (stage, event) {
        (StageView::Head(text), EventView::Line(line)) => {
            if byte_len(line) < 3 {
                match parsed_head(text + line) {
                    Ok(head) => Step::ReadBody { head },
                    Err(_) => Step::Reject,
                }
            } else {
                Step::ReadLine { text: text + line }
            }
        },
        (StageView::Body(head), EventView::Body(bytes)) => {
            if bytes.len() == head.content_length {
                Step::Dispatch { request: request_of(head, bytes) }
            } else {
                Step::Reject
            }
        },
        (StageView::Head(_), EventView::Failed) => Step::Reject,
        (StageView::Body(_), EventView::Failed) => Step::Reject,
        _ => Step::Close,
    }
}

/// A head that can be read, followed by a body of the announced length,
/// leads to the dispatch of the request that the two make up.
pub proof fn lemma_well_formed_request_is_dispatched(
    text: Seq<char>,
    line: Seq<char>,
    bytes: Seq<u8>,
)
    requires
        byte_len(line) < 3,
        parsed_head(text + line) is Ok,
        bytes.len() == parsed_head(text + line)->Ok_0.content_length,
    ensures
        step(StageView::Head(text), EventView::Line(line)) == (Step::ReadBody {
            head: parsed_head(text + line)->Ok_0,
        }),
        step(StageView::Body(parsed_head(text + line)->Ok_0), EventView::Body(bytes))
            == (Step::Dispatch { request: request_of(parsed_head(text + line)->Ok_0, bytes) }),
{
}

/// A connection carries one exchange: once it is over, every further event
/// closes the connection and nothing more is sent.
pub proof fn lemma_done_is_final(event: EventView)
    ensures
        step(StageView::Done, event) == Step::Close,
{
}

/// Whether `handler` can be called with every request and context.
pub open spec fn accepts_all<T, H: Fn(&StringMap, &String, &StringMap, &T) -> HTTPResponse>(
    handler: H,
) -> bool {
    forall|headers: &StringMap, body: &String, query: &StringMap, context: &T|
        call_requires(handler, (headers, body, query, context))
}

/// Whether `response` is something that `handler` may return for `request`
/// and `context`.
pub open spec fn served_by<T, H: Fn(&StringMap, &String, &StringMap, &T) -> HTTPResponse>(
    handler: H,
    request: Request,
    context: &T,
    response: HTTPResponse,
) -> bool {
    call_ensures(handler, (&request.headers, &request.body, &request.query, context), response)
}

impl Stage {
    /// The stage of a connection on which nothing has been read.
    pub fn new() -> (stage: Stage)
        ensures
            stage@ == StageView::Head(Seq::<char>::empty()),
    {
        Stage::Head(String::new())
    }
}

impl<T: Clone + Sync + Send + 'static, H> HTTPServer<T, H> {
    /// The socket address to bind: the address and the port, joined by a
    /// colon.
    pub fn endpoint(&self) -> (text: String)
        ensures
            text@ == self.address@ + seq![':'] + decimal(self.port as nat),
    {
        proof {
            reveal_strlit(":");
        }
        let mut text = self.address.clone();
        text.append(":");
        text.append(format_decimal(self.port).as_str());
        text
    }
}

impl<
    T: Clone + Sync + Send + 'static,
    H: Fn(&StringMap, &String, &StringMap, &T) -> HTTPResponse,
> HTTPServer<T, H> {
    /// Whether every registered handler, and the fallback if there is one,
    /// can be called with every request.
    pub open spec fn handlers_accept_all(
        listeners: &RouteTable<H>,
        default_404_listener: &Option<H>,
    ) -> bool {
        &&& forall|route: RouteView| #[trigger]
            listeners@.contains_key(route) ==> accepts_all::<T, H>(listeners@[route])
        &&& match *default_404_listener {
            Some(fallback) => accepts_all::<T, H>(fallback),
            None => true,
        }
    }

    /// Whether `response` answers `request`: it comes from the handler
    /// registered for the route of the request; where there is none, from
    /// the fallback; and where there is no fallback either, it is the
    /// built-in `404 Not Found`.
    pub open spec fn answers(
        listeners: &RouteTable<H>,
        default_404_listener: &Option<H>,
        passthrough: &T,
        request: Request,
        response: HTTPResponse,
    ) -> bool {
        if listeners@.contains_key(request@.route()) {
            served_by(listeners@[request@.route()], request, passthrough, response)
        } else {
            match *default_404_listener {
                Some(fallback) => served_by(fallback, request, passthrough, response),
                None => response@ == not_found_response(),
            }
        }
    }

    /// Whether the stage `stage` and the action `action` carry out `step`:
    /// a step that reads on keeps what was read and asks for more, and every
    /// other step ends the exchange. A rejected request is sent the built-in
    /// `400 Bad Request`. A dispatched request is sent a response that
    /// answers it, the handler having seen the request as it was parsed.
    pub open spec fn carries_out(
        listeners: &RouteTable<H>,
        default_404_listener: &Option<H>,
        passthrough: &T,
        step: Step,
        stage: Stage,
        action: Action,
    ) -> bool {
        match step {
            Step::ReadLine { text } => stage@ == StageView::Head(text) && action is ReadLine,
            Step::ReadBody { head } => stage@ == StageView::Body(head) && action
                == Action::ReadBody(head.content_length),
            Step::Reject => stage is Done && action is Send && action->Send_0@
                == bad_request_response(),
            Step::Dispatch { request } => stage is Done && action is Send && exists|seen: Request|
                seen@ == request && #[trigger] Self::answers(
                    listeners,
                    default_404_listener,
                    passthrough,
                    seen,
                    action->Send_0,
                ),
            Step::Close => stage is Done && action is Close,
        }
    }

    /// The handler that answers requests for `route`, or `None` where the
    /// built-in `404 Not Found` does. The fallback is chosen only when no
    /// handler is registered for the route.
    pub fn select<'a>(
        listeners: &'a RouteTable<H>,
        default_404_listener: &'a Option<H>,
        route: &Route,
    ) -> (handler: Option<&'a H>)
        ensures
            listeners@.contains_key(route@) ==> handler == Some(&listeners@[route@]),
            !listeners@.contains_key(route@) ==> match *default_404_listener {
                Some(fallback) => handler == Some(&fallback),
                None => handler is None,
            },
    {
        match listeners.get(route) {
            Some(handler) => Some(handler),
            None => match default_404_listener {
                Some(fallback) => Some(fallback),
                None => None,
            },
        }
    }

    /// Answers a request: calls the handler that `select` names, with the
    /// header fields, the body and the query parameters of the request and
    /// with `passthrough`, or builds the `404 Not Found` response.
    pub fn dispatch(
        listeners: &RouteTable<H>,
        default_404_listener: &Option<H>,
        passthrough: &T,
        request: &Request,
    ) -> (response: HTTPResponse)
        requires
            Self::handlers_accept_all(listeners, default_404_listener),
        ensures
            Self::answers(listeners, default_404_listener, passthrough, *request, response),
    {
        let route = Route { method: request.method, location: request.path.clone() };
        match Self::select(listeners, default_404_listener, &route) {
            Some(handler) => handler(&request.headers, &request.body, &request.query, passthrough),
            None => get_404_default_response(),
        }
    }

    /// Takes a connection one step further: from the stage it is at and the
    /// event that was observed to the next stage and the next action.
    pub fn handle_event(
        listeners: &RouteTable<H>,
        default_404_listener: &Option<H>,
        passthrough: &T,
        stage: Stage,
        event: Event,
    ) -> (next: (Stage, Action))
        requires
            Self::handlers_accept_all(listeners, default_404_listener),
        ensures
            Self::carries_out(
                listeners,
                default_404_listener,
                passthrough,
                step(stage@, event@),
                next.0,
                next.1,
            ),
    {
        match (stage, event) {
            (Stage::Head(text), Event::Line(line)) => {
                let mut text = text;
                text.append(line.as_str());
                if line.as_str().as_bytes().len() < 3 {
                    match parse_head(text.as_str()) {
                        Ok(head) => {
                            let length = head.content_length;
                            (Stage::Body(head), Action::ReadBody(length))
                        },
                        Err(_) => (Stage::Done, Action::Send(get_400_default_response())),
                    }
                } else {
                    (Stage::Head(text), Action::ReadLine)
                }
            },
            (Stage::Body(head), Event::Body(bytes)) => {
                if bytes.len() == head.content_length {
                    let ghost expected = request_of(head@, bytes@);
                    let request = head.with_body(decode_body(bytes));
                    let response = Self::dispatch(
                        listeners,
                        default_404_listener,
                        passthrough,
                        &request,
                    );
                    let next = (Stage::Done, Action::Send(response));
                    assert(request@ == expected && Self::answers(
                        listeners,
                        default_404_listener,
                        passthrough,
                        request,
                        next.1->Send_0,
                    ));
                    next
                } else {
                    (Stage::Done, Action::Send(get_400_default_response()))
                }
            },
            (Stage::Head(_), Event::Failed) => (
                Stage::Done,
                Action::Send(get_400_default_response()),
            ),
            (Stage::Body(_), Event::Failed) => (
                Stage::Done,
                Action::Send(get_400_default_response()),
            ),
            _ => (Stage::Done, Action::Close),
        }
    }
}

} // verus!
