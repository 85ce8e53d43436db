use http_server::http::{Method, ParseError, Request, Response, StatusCode};
use http_server::server::{fallback_response, Handler, Route, Server, BUFFER_SIZE};

struct Echo {
    served: usize,
    failed: usize,
}

impl Handler for Echo {
    fn handle_request(&mut self, request: &Request) -> Response {
        self.served += 1;
        Response::new(StatusCode::OK, Some(format!("{}:{}", self.served, request.path())))
    }
}

struct Strict;

impl Handler for Strict {
    fn handle_request(&mut self, _request: &Request) -> Response {
        Response::new(StatusCode::NotFound, None)
    }

    fn handle_bad_request(&mut self, e: &ParseError) -> Response {
        Response::new(StatusCode::BadRequest, Some(e.message().to_string()))
    }
}

fn buffer_with(line: &[u8]) -> [u8; BUFFER_SIZE] {
    let mut buffer = [0u8; BUFFER_SIZE];
    buffer[..line.len()].copy_from_slice(line);
    buffer
}

#[test]
fn buffer_size_is_one_kilobyte() {
    assert_eq!(BUFFER_SIZE, 1024);
}

#[test]
fn server_keeps_its_address() {
    let server = Server::new("127.0.0.1:8080".to_string());
    assert_eq!(server.addr(), "127.0.0.1:8080");
}

#[test]
fn route_hands_out_the_request() {
    let buffer = buffer_with(b"DELETE /item?id=7 HTTP/1.1\r\n\r\n");
    match Server::route(&buffer) {
        Route::Request(request) => {
            assert_eq!(*request.method(), Method::DELETE);
            assert_eq!(request.path(), "/item");
            assert!(request.query_string().is_some());
        }
        Route::BadRequest(e) => panic!("not parsed: {:?}", e),
    }
}

#[test]
fn route_hands_out_the_error() {
    assert!(matches!(
        Server::route(&buffer_with(b"GET / HTTP/0.9\r\n")),
        Route::BadRequest(ParseError::InvalidProtocol)
    ));
    assert!(matches!(
        Server::route(&buffer_with(b"GET /")),
        Route::BadRequest(ParseError::InvalidRequest)
    ));
    assert!(matches!(
        Server::route(&buffer_with(b"\xff / HTTP/1.1\r\n")),
        Route::BadRequest(ParseError::InvalidEncoding)
    ));
    assert!(matches!(
        Server::route(&buffer_with(b"NOPE / HTTP/1.1\r\n")),
        Route::BadRequest(ParseError::InvalidMethod)
    ));
}

#[test]
fn fallback_is_a_bad_request_without_body() {
    for e in [
        ParseError::InvalidRequest,
        ParseError::InvalidEncoding,
        ParseError::InvalidProtocol,
        ParseError::InvalidMethod,
    ] {
        let response = fallback_response(&e);
        assert_eq!(response.status_code(), StatusCode::BadRequest);
        assert_eq!(response.body(), None);
        assert_eq!(response.encode(), "HTTP/1.1 400 Bad Request\r\n\r\n");
    }
}

#[test]
fn handler_without_fallback_of_its_own_answers_bad_request() {
    let mut handler = Echo { served: 0, failed: 0 };
    let response = Server::respond(&mut handler, &buffer_with(b"garbage"));
    assert_eq!(response.encode(), "HTTP/1.1 400 Bad Request\r\n\r\n");
    assert_eq!(handler.served, 0);
    assert_eq!(handler.failed, 0);
}

#[test]
fn handler_may_answer_bad_requests_itself() {
    let mut handler = Strict;
    let response = Server::respond(&mut handler, &buffer_with(b"GET / HTTP/2\r\n"));
    assert_eq!(response.encode(), "HTTP/1.1 400 Bad Request\r\n\r\nInvalid Protocol");
    let found = Server::respond(&mut handler, &buffer_with(b"GET / HTTP/1.1\r\n"));
    assert_eq!(found.status_code(), StatusCode::NotFound);
}

#[test]
fn connections_one_after_the_other_share_nothing_but_the_handler() {
    let mut handler = Echo { served: 0, failed: 0 };
    let lines: [&[u8]; 6] = [
        b"GET /first HTTP/1.1\r\n",
        b"GET /second?x=1 HTTP/1.1\r\n",
        b"broken",
        b"GET /third HTTP/1.1\r\n",
        b"GET /first HTTP/1.1\r\n",
        b"PUT /p HTTP/1.0\r\n",
    ];
    let expected = [
        "HTTP/1.1 200 Ok\r\n\r\n1:/first",
        "HTTP/1.1 200 Ok\r\n\r\n2:/second",
        "HTTP/1.1 400 Bad Request\r\n\r\n",
        "HTTP/1.1 200 Ok\r\n\r\n3:/third",
        "HTTP/1.1 200 Ok\r\n\r\n4:/first",
        "HTTP/1.1 400 Bad Request\r\n\r\n",
    ];
    for (line, want) in lines.iter().zip(expected.iter()) {
        let buffer = buffer_with(line);
        let response = Server::respond(&mut handler, &buffer);
        assert_eq!(response.encode(), *want);
    }
    assert_eq!(handler.served, 4);
}

#[test]
fn request_longer_than_the_buffer_is_cut_off() {
    let mut long = b"GET /".to_vec();
    long.extend(std::iter::repeat(b'a').take(2 * BUFFER_SIZE));
    long.extend_from_slice(b" HTTP/1.1\r\n");
    let mut handler = Echo { served: 0, failed: 0 };
    let response = Server::respond(&mut handler, &long[..BUFFER_SIZE]);
    assert_eq!(response.encode(), "HTTP/1.1 400 Bad Request\r\n\r\n");
    assert!(matches!(
        Server::route(&long[..BUFFER_SIZE]),
        Route::BadRequest(ParseError::InvalidRequest)
    ));
}
