//! The request line: `GET /search?name=abc&sort=1 HTTP/1.1\r\n`.

use crate::http::method::{Method, MethodError};
use crate::http::query_string::{parse_query, QueryString, QueryValue};
use crate::http::text::{
    cut, lemma_cut_head, lemma_cut_joined, lemma_cut_none, lemma_str_bytes, same_text, spec_cut,
};
use std::str::FromStr;
use std::str::Utf8Error;
use vstd::prelude::*;
use vstd::std_specs::convert::{FromSpecImpl, TryFromSpecImpl};
use vstd::string::*;
use vstd::utf8::{decode_utf8, valid_utf8};

verus! {

/// Why a buffer is not a request.
#[derive(Debug, Clone, Copy, PartialEq, Eq, Structural)]
pub enum ParseError {
    /// The request line has fewer than three words.
    InvalidRequest,
    /// The buffer is not UTF-8.
    InvalidEncoding,
    /// The third word is not `HTTP/1.1`.
    InvalidProtocol,
    /// The first word is not the name of a method.
    InvalidMethod,
}

impl ParseError {
    /// The error in words.
    pub open spec fn spec_message(self) -> Seq<char> {
        match self {
            ParseError::InvalidRequest => "Invalid Request"@,
            ParseError::InvalidEncoding => "Invalid Encoding"@,
            ParseError::InvalidProtocol => "Invalid Protocol"@,
            ParseError::InvalidMethod => "Invalid Method"@,
        }
    }

    /// The error in words.
    pub fn message(&self) -> (r: &'static str)
        ensures
            r@ == self.spec_message(),
    {
        match self {
            ParseError::InvalidRequest => "Invalid Request",
            ParseError::InvalidEncoding => "Invalid Encoding",
            ParseError::InvalidProtocol => "Invalid Protocol",
            ParseError::InvalidMethod => "Invalid Method",
        }
    }
}

impl From<MethodError> for ParseError {
    fn from(e: MethodError) -> (r: ParseError) {
        ParseError::InvalidMethod
    }
}

impl FromSpecImpl<MethodError> for ParseError {
    open spec fn obeys_from_spec() -> bool {
        true
    }

    open spec fn from_spec(e: MethodError) -> ParseError {
        ParseError::InvalidMethod
    }
}

/// The error of `core::str::from_utf8`, carried through and never looked into.
#[verifier::external_type_specification]
#[verifier::external_body]
pub struct ExUtf8Error(Utf8Error);

impl From<Utf8Error> for ParseError {
    fn from(e: Utf8Error) -> (r: ParseError) {
        ParseError::InvalidEncoding
    }
}

impl FromSpecImpl<Utf8Error> for ParseError {
    open spec fn obeys_from_spec() -> bool {
        true
    }

    open spec fn from_spec(e: Utf8Error) -> ParseError {
        ParseError::InvalidEncoding
    }
}

/// `core::str::from_utf8` accepts exactly the well-formed UTF-8 byte
/// sequences, and the text it returns is made of the bytes it was given.
pub assume_specification[ core::str::from_utf8 ](v: &[u8]) -> (r: Result<&str, Utf8Error>)
    ensures
        r is Ok <==> valid_utf8(v@),
        r matches Ok(s) ==> s.spec_bytes() == v@,
;

/// A request line, as mathematics.
pub struct RequestView {
    pub method: Method,
    pub path: Seq<char>,
    pub query_string: Option<Map<Seq<char>, QueryValue>>,
}

/// A parsed request line. Its texts are borrowed from the buffer that was
/// parsed.
#[derive(Debug)]
pub struct Request<'buf> {
    path: &'buf str,
    query_string: Option<QueryString<'buf>>,
    method: Method,
}

impl<'buf> View for Request<'buf> {
    type V = RequestView;

    closed spec fn view(&self) -> RequestView {
        RequestView {
            method: self.method,
            path: self.path@,
            query_string: match self.query_string {
                Some(q) => Some(q@),
                None => None,
            },
        }
    }
}

/// The first word of `text` and what follows it: `text` cut at its first
/// space or carriage return. `None` where it holds neither.
pub open spec fn next_word(text: Seq<char>) -> Option<(Seq<char>, Seq<char>)> {
    spec_cut(text, ' ', '\r')
}

/// The path of a request target: what stands before its first `?`, or all of
/// it where it has none.
pub open spec fn target_path(target: Seq<char>) -> Seq<char> {
    match spec_cut(target, '?', '?') {
        Some((path, _)) => path,
        None => target,
    }
}

/// The query of a request target: what follows its first `?`, parsed.
pub open spec fn target_query(target: Seq<char>) -> Option<Map<Seq<char>, QueryValue>> {
    match spec_cut(target, '?', '?') {
        Some((_, query)) => Some(parse_query(query)),
        None => None,
    }
}

/// The three words of a request line, each ended by a space or a carriage
/// return: method, target and protocol. `None` where a word is missing or the
/// last one is not ended.
pub open spec fn request_words(text: Seq<char>) -> Option<(Seq<char>, Seq<char>, Seq<char>)> {
    match next_word(text) {
        None => None,
        Some((method, after_method)) => match next_word(after_method) {
            None => None,
            Some((target, after_target)) => match next_word(after_target) {
                None => None,
                Some((protocol, _)) => Some((method, target, protocol)),
            },
        },
    }
}

/// What a request line stands for: it has three words, of which the third
/// is `HTTP/1.1` and the first names a method. The protocol is looked at
/// before the method.
pub open spec fn parse_request_line(text: Seq<char>) -> Result<RequestView, ParseError> {
    match request_words(text) {
        None => Err(ParseError::InvalidRequest),
        Some((method, target, protocol)) => if protocol != "HTTP/1.1"@ {
            Err(ParseError::InvalidProtocol)
        } else {
            match Method::named(method) {
                None => Err(ParseError::InvalidMethod),
                Some(m) => Ok(
                    RequestView {
                        method: m,
                        path: target_path(target),
                        query_string: target_query(target),
                    },
                ),
            }
        },
    }
}

/// What a buffer stands for: it has to be UTF-8, and its text a request line.
/// What follows the request line is not looked at.
pub open spec fn parse_request(bytes: Seq<u8>) -> Result<RequestView, ParseError> {
    if valid_utf8(bytes) {
        parse_request_line(decode_utf8(bytes))
    } else {
        Err(ParseError::InvalidEncoding)
    }
}

/// The first word of `request` and what follows it, both borrowed from
/// `request`. A word ends at the first space or carriage return; `None` where
/// there is neither.
pub fn get_next_word(request: &str) -> (r: Option<(&str, &str)>)
    ensures
        match r {
            Some((word, rest)) => next_word(request@) == Some((word@, rest@)),
            None => next_word(request@) is None,
        },
{
    cut(request, ' ', '\r')
}

impl<'buf> Request<'buf> {
    /// The path, without the query.
    pub fn path(&self) -> (r: &'buf str)
        ensures
            r@ == self@.path,
    {
        self.path
    }

    /// The method.
    pub fn method(&self) -> (r: &Method)
        ensures
            *r == self@.method,
    {
        &self.method
    }

    /// The query, if the target had one.
    pub fn query_string(&self) -> (r: Option<&QueryString<'buf>>)
        ensures
            match r {
                Some(q) => self@.query_string == Some(q@),
                None => self@.query_string is None,
            },
    {
        self.query_string.as_ref()
    }
}

impl<'buf> TryFrom<&'buf [u8]> for Request<'buf> {
    type Error = ParseError;

    /// Parses the request line at the start of `buf`.
    fn try_from(buf: &'buf [u8]) -> (r: Result<Request<'buf>, ParseError>)
        ensures
            match r {
                Ok(request) => parse_request(buf@) == Ok::<RequestView, ParseError>(request@),
                Err(e) => parse_request(buf@) == Err::<RequestView, ParseError>(e),
            },
    {
        let request = match core::str::from_utf8(buf) {
            Ok(text) => text,
            Err(e) => {
                return Err(ParseError::from(e));
            },
        };
        proof {
            lemma_str_bytes(request);
        }
        let (method, request) = match get_next_word(request) {
            Some(found) => found,
            None => {
                return Err(ParseError::InvalidRequest);
            },
        };
        let (target, request) = match get_next_word(request) {
            Some(found) => found,
            None => {
                return Err(ParseError::InvalidRequest);
            },
        };
        let (protocol, _) = match get_next_word(request) {
            Some(found) => found,
            None => {
                return Err(ParseError::InvalidRequest);
            },
        };
        if !same_text(protocol, "HTTP/1.1") {
            return Err(ParseError::InvalidProtocol);
        }
        let method = match Method::from_str(method) {
            Ok(m) => m,
            Err(e) => {
                return Err(ParseError::from(e));
            },
        };
        match cut(target, '?', '?') {
            Some((path, query)) => Ok(
                Request { path, query_string: Some(QueryString::from(query)), method },
            ),
            None => Ok(Request { path: target, query_string: None, method }),
        }
    }
}

impl<'buf> TryFromSpecImpl<&'buf [u8]> for Request<'buf> {
    /// Two parses of one buffer hold the same request, but need not be the
    /// same value: `try_from_spec` fixes what the request holds, not how.
    open spec fn obeys_try_from_spec() -> bool {
        false
    }

    open spec fn try_from_spec(buf: &'buf [u8]) -> Result<Request<'buf>, ParseError> {
        match parse_request(buf@) {
            Ok(view) => Ok(choose|request: Request<'buf>| request@ == view),
            Err(e) => Err(e),
        }
    }
}

/// Which error comes on which buffer. A buffer that is not UTF-8 is the one
/// kind that gives `InvalidEncoding`. Of the others, those without three
/// words give `InvalidRequest`; those whose third word is not `HTTP/1.1`,
/// `InvalidProtocol`; and of the rest, those whose first word names no method,
/// `InvalidMethod`.
pub proof fn lemma_errors(bytes: Seq<u8>)
    ensures
        parse_request(bytes) == Err::<RequestView, ParseError>(ParseError::InvalidEncoding)
            <==> !valid_utf8(bytes),
        parse_request(bytes) == Err::<RequestView, ParseError>(ParseError::InvalidRequest) <==> (
        valid_utf8(bytes) && request_words(decode_utf8(bytes)) is None),
        parse_request(bytes) == Err::<RequestView, ParseError>(ParseError::InvalidProtocol) <==> (
        valid_utf8(bytes) && match request_words(decode_utf8(bytes)) {
            Some((_, _, protocol)) => protocol != "HTTP/1.1"@,
            None => false,
        }),
        parse_request(bytes) == Err::<RequestView, ParseError>(ParseError::InvalidMethod) <==> (
        valid_utf8(bytes) && match request_words(decode_utf8(bytes)) {
            Some((method, _, protocol)) => protocol == "HTTP/1.1"@ && Method::named(method) is None,
            None => false,
        }),
{
}

/// A target without `?` is the path as it stands, and the request has no
/// query.
pub proof fn lemma_target_without_query(
    text: Seq<char>,
    method: Seq<char>,
    target: Seq<char>,
    protocol: Seq<char>,
)
    requires
        request_words(text) == Some((method, target, protocol)),
        protocol == "HTTP/1.1"@,
        Method::named(method) is Some,
        forall|i: int| 0 <= i < target.len() ==> target[i] != '?',
    ensures
        parse_request_line(text) == Ok::<RequestView, ParseError>(
            RequestView {
                method: Method::named(method)->Some_0,
                path: target,
                query_string: None,
            },
        ),
{
    lemma_cut_none(target, '?', '?');
}

/// The path of a request holds no `?`: the query, and the `?` before it, are
/// never part of it.
pub proof fn lemma_path_without_query(text: Seq<char>)
    ensures
        match parse_request_line(text) {
            Ok(request) => forall|i: int| 0 <= i < request.path.len() ==> request.path[i] != '?',
            Err(_) => true,
        },
{
    match request_words(text) {
        Some((_, target, _)) => {
            lemma_cut_head(target, '?', '?');
        },
        None => {},
    }
}

/// A target with a `?` is cut at the first one: the path is what stands
/// before it, the query what follows it.
pub proof fn lemma_target_with_query(path: Seq<char>, query: Seq<char>)
    requires
        forall|i: int| 0 <= i < path.len() ==> path[i] != '?',
    ensures
        target_path(path + seq!['?'] + query) == path,
        target_query(path + seq!['?'] + query) == Some(parse_query(query)),
{
    lemma_cut_joined(path, '?', query, '?', '?');
}

/// Whether a character ends a word.
pub open spec fn is_boundary(c: char) -> bool {
    c == ' ' || c == '\r'
}

/// Whether a text is a word: it holds no space and no carriage return.
pub open spec fn is_word(text: Seq<char>) -> bool {
    forall|i: int| 0 <= i < text.len() ==> !is_boundary(#[trigger] text[i])
}

/// Three words, each followed by a space or a carriage return, are read back
/// as they were written, whatever follows the third.
pub proof fn lemma_request_words(
    method: Seq<char>,
    target: Seq<char>,
    protocol: Seq<char>,
    d1: char,
    d2: char,
    d3: char,
    rest: Seq<char>,
)
    requires
        is_word(method),
        is_word(target),
        is_word(protocol),
        is_boundary(d1),
        is_boundary(d2),
        is_boundary(d3),
    ensures
        request_words(method + seq![d1] + target + seq![d2] + protocol + seq![d3] + rest) == Some(
            (method, target, protocol),
        ),
{
    let after_target = protocol + seq![d3] + rest;
    let after_method = target + seq![d2] + after_target;
    let text = method + seq![d1] + after_method;
    assert(text =~= method + seq![d1] + target + seq![d2] + protocol + seq![d3] + rest);
    assert forall|i: int| 0 <= i < method.len() implies method[i] != ' ' && method[i] != '\r' by {
        assert(!is_boundary(method[i]));
    }
    assert forall|i: int| 0 <= i < target.len() implies target[i] != ' ' && target[i] != '\r' by {
        assert(!is_boundary(target[i]));
    }
    assert forall|i: int| 0 <= i < protocol.len() implies protocol[i] != ' ' && protocol[i]
        != '\r' by {
        assert(!is_boundary(protocol[i]));
    }
    lemma_cut_joined(method, d1, after_method, ' ', '\r');
    lemma_cut_joined(target, d2, after_target, ' ', '\r');
    lemma_cut_joined(protocol, d3, rest, ' ', '\r');
}

} // verus!
