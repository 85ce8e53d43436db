//! The request methods this server knows.

use crate::http::text::same_text;
use std::str::FromStr;
use vstd::prelude::*;

verus! {

/// An HTTP request method.
#[derive(Debug, Clone, Copy, PartialEq, Eq, Structural)]
pub enum Method {
    GET,
    DELETE,
    POST,
    PUT,
    HEAD,
    CONNECT,
    OPTIONS,
    TRACE,
    PATCH,
}

/// The text was not the name of a method.
#[derive(Debug, Clone, Copy, PartialEq, Eq, Structural)]
pub struct MethodError;

impl Method {
    /// The name of the method as it stands in a request line.
    pub open spec fn name(self) -> Seq<char> {
        match self {
            Method::GET => "GET"@,
            Method::DELETE => "DELETE"@,
            Method::POST => "POST"@,
            Method::PUT => "PUT"@,
            Method::HEAD => "HEAD"@,
            Method::CONNECT => "CONNECT"@,
            Method::OPTIONS => "OPTIONS"@,
            Method::TRACE => "TRACE"@,
            Method::PATCH => "PATCH"@,
        }
    }

    /// The method that `token` names, letter for letter and in upper case.
    pub open spec fn named(token: Seq<char>) -> Option<Method> {
        if token == Method::GET.name() {
            Some(Method::GET)
        } else if token == Method::DELETE.name() {
            Some(Method::DELETE)
        } else if token == Method::POST.name() {
            Some(Method::POST)
        } else if token == Method::PUT.name() {
            Some(Method::PUT)
        } else if token == Method::HEAD.name() {
            Some(Method::HEAD)
        } else if token == Method::CONNECT.name() {
            Some(Method::CONNECT)
        } else if token == Method::OPTIONS.name() {
            Some(Method::OPTIONS)
        } else if token == Method::TRACE.name() {
            Some(Method::TRACE)
        } else if token == Method::PATCH.name() {
            Some(Method::PATCH)
        } else {
            None
        }
    }

    /// The name of the method as it stands in a request line.
    pub fn as_str(&self) -> (r: &'static str)
        ensures
            r@ == self.name(),
    {
        match self {
            Method::GET => "GET",
            Method::DELETE => "DELETE",
            Method::POST => "POST",
            Method::PUT => "PUT",
            Method::HEAD => "HEAD",
            Method::CONNECT => "CONNECT",
            Method::OPTIONS => "OPTIONS",
            Method::TRACE => "TRACE",
            Method::PATCH => "PATCH",
        }
    }

    /// No two methods share a name, so every method is found again by its
    /// own name.
    pub proof fn lemma_named_name(m: Method)
        ensures
            Method::named(m.name()) == Some(m),
    {
        reveal_strlit("GET");
        reveal_strlit("DELETE");
        reveal_strlit("POST");
        reveal_strlit("PUT");
        reveal_strlit("HEAD");
        reveal_strlit("CONNECT");
        reveal_strlit("OPTIONS");
        reveal_strlit("TRACE");
        reveal_strlit("PATCH");
        assert("GET"@.len() == 3);
        assert("DELETE"@.len() == 6);
        assert("POST"@.len() == 4 && "POST"@[1] == 'O');
        assert("PUT"@.len() == 3 && "PUT"@[0] == 'P');
        assert("HEAD"@.len() == 4 && "HEAD"@[0] == 'H');
        assert("CONNECT"@.len() == 7 && "CONNECT"@[0] == 'C');
        assert("OPTIONS"@.len() == 7 && "OPTIONS"@[0] == 'O');
        assert("TRACE"@.len() == 5 && "TRACE"@[0] == 'T');
        assert("PATCH"@.len() == 5 && "PATCH"@[0] == 'P');
    }
}

impl FromStr for Method {
    type Err = MethodError;

    /// Reads a method from its name. Any other text, a known name in lower
    /// case too, is refused.
    fn from_str(s: &str) -> (r: Result<Method, MethodError>)
        ensures
            r == match Method::named(s@) {
                Some(m) => Ok::<Method, MethodError>(m),
                None => Err::<Method, MethodError>(MethodError),
            },
    {
        if same_text(s, "GET") {
            Ok(Method::GET)
        } else if same_text(s, "DELETE") {
            Ok(Method::DELETE)
        } else if same_text(s, "POST") {
            Ok(Method::POST)
        } else if same_text(s, "PUT") {
            Ok(Method::PUT)
        } else if same_text(s, "HEAD") {
            Ok(Method::HEAD)
        } else if same_text(s, "CONNECT") {
            Ok(Method::CONNECT)
        } else if same_text(s, "OPTIONS") {
            Ok(Method::OPTIONS)
        } else if same_text(s, "TRACE") {
            Ok(Method::TRACE)
        } else if same_text(s, "PATCH") {
            Ok(Method::PATCH)
        } else {
            Err(MethodError)
        }
    }
}

} // verus!
