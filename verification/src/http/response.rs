//! What the server answers, and how it stands on the wire.

use crate::http::status_code::StatusCode;
use crate::http::text::{decimal, to_decimal};
use vstd::prelude::*;
use vstd::string::*;

verus! {

/// A response, as mathematics.
pub struct ResponseView {
    pub status_code: StatusCode,
    pub body: Option<Seq<char>>,
}

/// A status and, if there is one, a body.
#[derive(Debug)]
pub struct Response {
    status_code: StatusCode,
    body: Option<String>,
}

impl View for Response {
    type V = ResponseView;

    closed spec fn view(&self) -> ResponseView {
        ResponseView {
            status_code: self.status_code,
            body: match self.body {
                Some(text) => Some(text@),
                None => None,
            },
        }
    }
}

/// A response on the wire: `HTTP/1.1`, the number of the status, its reason
/// phrase, an empty line, and the body, which is empty where the response has
/// none. No header stands between the status line and the body.
pub open spec fn wire_text(response: ResponseView) -> Seq<char> {
    "HTTP/1.1 "@ + decimal(response.status_code.spec_code() as nat) + " "@
        + response.status_code.spec_reason_phrase() + "\r\n\r\n"@ + match response.body {
        Some(body) => body,
        None => Seq::empty(),
    }
}

impl Response {
    /// A response with this status and this body.
    pub fn new(status_code: StatusCode, body: Option<String>) -> (r: Response)
        ensures
            r@.status_code == status_code,
            r@.body == match body {
                Some(text) => Some(text@),
                None => None,
            },
    {
        Response { status_code, body }
    }

    /// The status.
    pub fn status_code(&self) -> (r: StatusCode)
        ensures
            r == self@.status_code,
    {
        self.status_code
    }

    /// The body, if there is one.
    pub fn body(&self) -> (r: Option<&str>)
        ensures
            match r {
                Some(text) => self@.body == Some(text@),
                None => self@.body is None,
            },
    {
        match &self.body {
            Some(text) => Some(text.as_str()),
            None => None,
        }
    }

    /// The response as it goes out on the wire.
    pub fn encode(&self) -> (r: String)
        ensures
            r@ == wire_text(self@),
    {
        let mut out = String::from_str("HTTP/1.1 ");
        let code = to_decimal(self.status_code.code());
        out.append(code.as_str());
        out.append(" ");
        out.append(self.status_code.reason_phrase());
        out.append("\r\n\r\n");
        match &self.body {
            Some(body) => {
                out.append(body.as_str());
            },
            None => {
                assert(out@ + Seq::<char>::empty() =~= out@);
            },
        }
        out
    }
}

/// A bad request without a body is the status line and the empty line, and
/// nothing after them.
pub proof fn lemma_bad_request_on_wire()
    ensures
        wire_text(ResponseView { status_code: StatusCode::BadRequest, body: None })
            == "HTTP/1.1 400 Bad Request\r\n\r\n"@,
{
    reveal_strlit("HTTP/1.1 ");
    reveal_strlit(" ");
    reveal_strlit("Bad Request");
    reveal_strlit("\r\n\r\n");
    reveal_strlit("HTTP/1.1 400 Bad Request\r\n\r\n");
    reveal_with_fuel(decimal, 3);
    assert(decimal(400) =~= seq!['4', '0', '0']);
    assert(wire_text(ResponseView { status_code: StatusCode::BadRequest, body: None })
        =~= "HTTP/1.1 400 Bad Request\r\n\r\n"@);
}

/// The body, where there is one, is the end of the wire text, and what
/// stands before it is the wire text of the same status without a body.
pub proof fn lemma_body_comes_last(status_code: StatusCode, body: Seq<char>)
    ensures
        wire_text(ResponseView { status_code, body: Some(body) }) == wire_text(
            ResponseView { status_code, body: None },
        ) + body,
{
    let head = wire_text(ResponseView { status_code, body: None });
    assert(wire_text(ResponseView { status_code, body: Some(body) }) =~= head + body);
}

} // verus!
