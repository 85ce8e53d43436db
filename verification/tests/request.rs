use http_server::http::request::get_next_word;
use http_server::http::{Method, ParseError, Request, Value};

fn parse(buf: &[u8]) -> Result<Request<'_>, ParseError> {
    Request::try_from(buf)
}

#[test]
fn request_line_with_query() {
    let buf = b"GET /search?name=abc&sort=1 HTTP/1.1\r\n";
    let request = parse(buf).unwrap();
    assert_eq!(*request.method(), Method::GET);
    assert_eq!(request.path(), "/search");
    let q = request.query_string().unwrap();
    assert!(matches!(q.get("name"), Some(Value::Single("abc"))));
    assert!(matches!(q.get("sort"), Some(Value::Single("1"))));
    assert!(q.get("other").is_none());
}

#[test]
fn request_line_without_query_keeps_the_path() {
    let request = parse(b"POST /a/b/c.html HTTP/1.1\r\nHost: x\r\n\r\n").unwrap();
    assert_eq!(*request.method(), Method::POST);
    assert_eq!(request.path(), "/a/b/c.html");
    assert!(request.query_string().is_none());
}

#[test]
fn request_in_a_zero_filled_buffer() {
    let mut buf = [0u8; 1024];
    let line = b"GET / HTTP/1.1\r\n\r\n";
    buf[..line.len()].copy_from_slice(line);
    let request = parse(&buf[..]).unwrap();
    assert_eq!(request.path(), "/");
    assert_eq!(*request.method(), Method::GET);
}

#[test]
fn empty_query_after_question_mark() {
    let request = parse(b"GET /p? HTTP/1.1\r\n").unwrap();
    assert_eq!(request.path(), "/p");
    let q = request.query_string().unwrap();
    assert!(matches!(q.get(""), Some(Value::Single(""))));
}

#[test]
fn only_the_first_question_mark_splits() {
    let request = parse(b"GET /p?a=b?c HTTP/1.1\r\n").unwrap();
    assert_eq!(request.path(), "/p");
    let q = request.query_string().unwrap();
    assert!(matches!(q.get("a"), Some(Value::Single("b?c"))));
}

#[test]
fn path_beyond_ascii() {
    let request = parse("GET /caf\u{e9}/\u{65e5}?x=\u{e9} HTTP/1.1\r\n".as_bytes()).unwrap();
    assert_eq!(request.path(), "/caf\u{e9}/\u{65e5}");
    let q = request.query_string().unwrap();
    assert!(matches!(q.get("x"), Some(Value::Single("\u{e9}"))));
}

#[test]
fn invalid_utf8_is_invalid_encoding() {
    assert_eq!(parse(&[0xff, 0xfe, b' ', b'/']).unwrap_err(), ParseError::InvalidEncoding);
    assert_eq!(
        parse(b"GET / HTTP/1.1\r\n\xc3\x28").unwrap_err(),
        ParseError::InvalidEncoding
    );
    assert_eq!(parse(&[0xc0, 0x80]).unwrap_err(), ParseError::InvalidEncoding);
    assert_eq!(parse(&[0xed, 0xa0, 0x80]).unwrap_err(), ParseError::InvalidEncoding);
}

#[test]
fn missing_words_are_invalid_request() {
    assert_eq!(parse(b"").unwrap_err(), ParseError::InvalidRequest);
    assert_eq!(parse(b"GET").unwrap_err(), ParseError::InvalidRequest);
    assert_eq!(parse(b"GET /").unwrap_err(), ParseError::InvalidRequest);
    assert_eq!(parse(b"GET / HTTP/1.1").unwrap_err(), ParseError::InvalidRequest);
    assert_eq!(parse(b"GET /index.html").unwrap_err(), ParseError::InvalidRequest);
}

#[test]
fn other_protocol_is_invalid_protocol() {
    assert_eq!(parse(b"GET / HTTP/1.0\r\n").unwrap_err(), ParseError::InvalidProtocol);
    assert_eq!(parse(b"GET / HTTP/2 ").unwrap_err(), ParseError::InvalidProtocol);
    assert_eq!(parse(b"GET / http/1.1\r\n").unwrap_err(), ParseError::InvalidProtocol);
    assert_eq!(parse(b"GET /  HTTP/1.1\r\n").unwrap_err(), ParseError::InvalidProtocol);
    assert_eq!(parse(b"GET / HTTP/1.1\n").unwrap_err(), ParseError::InvalidRequest);
}

#[test]
fn unknown_method_is_invalid_method() {
    assert_eq!(parse(b"FETCH / HTTP/1.1\r\n").unwrap_err(), ParseError::InvalidMethod);
    assert_eq!(parse(b"get / HTTP/1.1\r\n").unwrap_err(), ParseError::InvalidMethod);
    assert_eq!(parse(b" / HTTP/1.1\r\n").unwrap_err(), ParseError::InvalidMethod);
}

#[test]
fn protocol_is_looked_at_before_method() {
    assert_eq!(parse(b"FETCH / HTTP/1.0\r\n").unwrap_err(), ParseError::InvalidProtocol);
}

#[test]
fn carriage_return_ends_a_word_like_a_space() {
    let request = parse(b"GET\r/x\rHTTP/1.1 rest").unwrap();
    assert_eq!(request.path(), "/x");
    assert_eq!(*request.method(), Method::GET);
}

#[test]
fn every_method_is_read() {
    let names = [
        ("GET", Method::GET),
        ("DELETE", Method::DELETE),
        ("POST", Method::POST),
        ("PUT", Method::PUT),
        ("HEAD", Method::HEAD),
        ("CONNECT", Method::CONNECT),
        ("OPTIONS", Method::OPTIONS),
        ("TRACE", Method::TRACE),
        ("PATCH", Method::PATCH),
    ];
    for (name, method) in names {
        let line = format!("{} /x HTTP/1.1\r\n", name);
        let request = parse(line.as_bytes()).unwrap();
        assert_eq!(*request.method(), method);
    }
}

#[test]
fn next_word_stops_at_space_or_carriage_return() {
    assert_eq!(get_next_word("GET / HTTP/1.1"), Some(("GET", "/ HTTP/1.1")));
    assert_eq!(get_next_word("HTTP/1.1\r\nHost"), Some(("HTTP/1.1", "\nHost")));
    assert_eq!(get_next_word(" x"), Some(("", "x")));
    assert_eq!(get_next_word("x "), Some(("x", "")));
    assert_eq!(get_next_word("word"), None);
    assert_eq!(get_next_word(""), None);
    assert_eq!(get_next_word("a\tb\nc"), None);
    assert_eq!(get_next_word("caf\u{e9} \u{65e5}"), Some(("caf\u{e9}", "\u{65e5}")));
    assert_eq!(get_next_word("\u{1f600}\r\u{1f600}"), Some(("\u{1f600}", "\u{1f600}")));
    // U+0120 ends in the byte 0xA0, U+200D in 0x80 0x8D: neither holds 0x20 or 0x0D
    assert_eq!(get_next_word("\u{120}\u{200d}"), None);
    assert_eq!(get_next_word("\u{120}\u{200d} x"), Some(("\u{120}\u{200d}", "x")));
}

#[test]
fn parse_errors_in_words() {
    assert_eq!(ParseError::InvalidRequest.message(), "Invalid Request");
    assert_eq!(ParseError::InvalidEncoding.message(), "Invalid Encoding");
    assert_eq!(ParseError::InvalidProtocol.message(), "Invalid Protocol");
    assert_eq!(ParseError::InvalidMethod.message(), "Invalid Method");
}
