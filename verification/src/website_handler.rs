//! Serving files from one directory: which file a request asks for, and what
//! is answered once the file was looked for. The looking itself (the file
//! system) is the caller's.

use crate::http::method::Method;
use crate::http::request::{Request, RequestView};
use crate::http::response::{Response, ResponseView};
use crate::http::status_code::StatusCode;
use crate::http::text::same_text;
use vstd::prelude::*;
use vstd::string::*;

verus! {

/// The file that a request asks for, by name: `index.html` for a `GET` of
/// `/`, the path itself for a `GET` of anything else, none for other methods.
pub open spec fn wanted_file(request: RequestView) -> Option<Seq<char>> {
    if request.method != Method::GET {
        None
    } else if request.path == "/"@ {
        Some("index.html"@)
    } else {
        Some(request.path)
    }
}

/// The answer to a request once its file was looked for, `contents` being
/// what was read, if anything was. Only a `GET` is answered with a file: the
/// page at `/` always with status 200, whether or not it could be read; any
/// other file with 200 where it was read and 404 where it was not.
pub open spec fn answer_for(request: RequestView, contents: Option<Seq<char>>) -> ResponseView {
    if request.method != Method::GET {
        ResponseView { status_code: StatusCode::NotFound, body: None }
    } else if request.path == "/"@ {
        ResponseView { status_code: StatusCode::OK, body: contents }
    } else {
        match contents {
            Some(text) => ResponseView { status_code: StatusCode::OK, body: Some(text) },
            None => ResponseView { status_code: StatusCode::NotFound, body: None },
        }
    }
}

/// Serves the files below one directory.
pub struct WebsiteHandler {
    public_path: String,
}

impl WebsiteHandler {
    /// A handler for the files below `public_path`.
    pub fn new(public_path: String) -> (r: WebsiteHandler)
        ensures
            r.public_path_view() == public_path@,
    {
        WebsiteHandler { public_path }
    }

    /// The directory the handler was made with.
    pub closed spec fn public_path_view(&self) -> Seq<char> {
        self.public_path@
    }

    /// The directory the handler was made with.
    pub fn public_path(&self) -> (r: &str)
        ensures
            r@ == self.public_path_view(),
    {
        self.public_path.as_str()
    }

    /// Where the file of this name is looked for: the directory, a `/`, and
    /// the name as it stands.
    pub fn path_of(&self, file_path: &str) -> (r: String)
        ensures
            r@ == self.public_path_view() + "/"@ + file_path@,
    {
        let mut path = self.public_path.clone();
        path.append("/");
        path.append(file_path);
        path
    }

    /// The name of the file that `request` asks for, if it asks for one.
    pub fn wanted<'a>(request: &'a Request<'a>) -> (r: Option<&'a str>)
        ensures
            match r {
                Some(name) => wanted_file(request@) == Some(name@),
                None => wanted_file(request@) is None,
            },
    {
        match request.method() {
            Method::GET => {
                let path = request.path();
                if same_text(path, "/") {
                    Some("index.html")
                } else {
                    Some(path)
                }
            },
            _ => None,
        }
    }

    /// The answer to `request`, given what was read of its file.
    pub fn answer(request: &Request, contents: Option<String>) -> (r: Response)
        ensures
            r@ == answer_for(
                request@,
                match contents {
                    Some(text) => Some(text@),
                    None => None,
                },
            ),
    {
        match request.method() {
            Method::GET => {
                if same_text(request.path(), "/") {
                    Response::new(StatusCode::OK, contents)
                } else {
                    match contents {
                        Some(text) => Response::new(StatusCode::OK, Some(text)),
                        None => Response::new(StatusCode::NotFound, None),
                    }
                }
            },
            _ => Response::new(StatusCode::NotFound, None),
        }
    }
}

} // verus!
