//! One connection at a time: what was read is parsed, handed to the handler,
//! and the handler's response goes back. Reading and writing are the
//! caller's; what stands here is what is decided in between.

use crate::http::request::{parse_request, ParseError, Request, RequestView};
use crate::http::response::{Response, ResponseView};
use crate::http::status_code::StatusCode;
use vstd::prelude::*;

verus! {

/// How many bytes of a request are read. What a client sends beyond them is
/// never seen, so a longer request line is parsed as if it ended here.
pub const BUFFER_SIZE: usize = 1024;

/// What answers the requests. A handler may keep state of its own from one
/// request to the next; nothing else outlives a connection.
pub trait Handler {
    /// Whether this handler is known to leave the answer to what could not
    /// be parsed to `fallback_response`. Nothing is claimed of a handler that
    /// does not say so itself.
    open spec fn keeps_fallback(&self) -> bool {
        false
    }

    /// Answers a request.
    fn handle_request(&mut self, request: &Request) -> Response;

    /// Answers what could not be parsed. Unless a handler says otherwise,
    /// the answer is that of `fallback_response`.
    fn handle_bad_request(&mut self, e: &ParseError) -> (r: Response)
        ensures
            old(self).keeps_fallback() ==> r@ == fallback_view(),
    {
        fallback_response(e)
    }
}

/// The answer to what could not be parsed: a bad request, without a body.
pub open spec fn fallback_view() -> ResponseView {
    ResponseView { status_code: StatusCode::BadRequest, body: None }
}

/// The answer to what could not be parsed: a bad request, without a body,
/// whatever the error.
pub fn fallback_response(e: &ParseError) -> (r: Response)
    ensures
        r@ == fallback_view(),
{
    Response::new(StatusCode::BadRequest, None)
}

/// What is handed to the handler for one connection.
#[derive(Debug)]
pub enum Route<'buf> {
    /// The buffer held a request: it goes to `handle_request`.
    Request(Request<'buf>),
    /// It did not: the error goes to `handle_bad_request`.
    BadRequest(ParseError),
}

/// The server: the address it listens on.
pub struct Server {
    addr: String,
}

impl Server {
    /// A server for this address, `host:port`.
    pub fn new(addr: String) -> (r: Server)
        ensures
            r.addr_view() == addr@,
    {
        Server { addr }
    }

    /// The address the server was made with.
    pub closed spec fn addr_view(&self) -> Seq<char> {
        self.addr@
    }

    /// The address the server was made with.
    pub fn addr(&self) -> (r: &str)
        ensures
            r@ == self.addr_view(),
    {
        self.addr.as_str()
    }

    /// What the bytes read from a connection call for. Nothing but these
    /// bytes decides it: no earlier connection has a say.
    pub fn route<'buf>(buffer: &'buf [u8]) -> (r: Route<'buf>)
        ensures
            match r {
                Route::Request(request) => parse_request(buffer@) == Ok::<RequestView, ParseError>(
                    request@,
                ),
                Route::BadRequest(e) => parse_request(buffer@) == Err::<RequestView, ParseError>(e),
            },
    {
        match Request::try_from(buffer) {
            Ok(request) => Route::Request(request),
            Err(e) => Route::BadRequest(e),
        }
    }

    /// Serves one connection: parses what was read and lets the handler
    /// answer it. Where the buffer holds a request, the answer is the
    /// handler's own to that request; where it does not, the handler's own to
    /// the error. Either way the handler is asked once, and is left as that
    /// one call left it. What a handler may answer is for its own contract to
    /// say; of one that keeps the fallback, the answer to what could not be
    /// parsed is known here.
    pub fn respond<H: Handler>(handler: &mut H, buffer: &[u8]) -> (r: Response)
        ensures
            match parse_request(buffer@) {
                Ok(request) => exists|h: &mut H, asked: Request|
                    *h == *old(handler) && *final(h) == *final(handler) && asked@ == request
                        && #[trigger] call_ensures(H::handle_request, (h, &asked), r),
                Err(e) => exists|h: &mut H|
                    *h == *old(handler) && *final(h) == *final(handler) && #[trigger] call_ensures(
                        H::handle_bad_request,
                        (h, &e),
                        r,
                    ),
            },
            parse_request(buffer@) is Err && old(handler).keeps_fallback() ==> r@
                == fallback_view(),
    {
        match Server::route(buffer) {
            Route::Request(request) => handler.handle_request(&request),
            Route::BadRequest(e) => handler.handle_bad_request(&e),
        }
    }
}

} // verus!
