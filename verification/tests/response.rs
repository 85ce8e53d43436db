use http_server::http::{Response, StatusCode};

#[test]
fn bad_request_without_body_on_the_wire() {
    let response = Response::new(StatusCode::BadRequest, None);
    assert_eq!(response.encode(), "HTTP/1.1 400 Bad Request\r\n\r\n");
}

#[test]
fn ok_with_body_on_the_wire() {
    let response = Response::new(StatusCode::OK, Some("<h1>testing</h1>".to_string()));
    assert_eq!(response.encode(), "HTTP/1.1 200 Ok\r\n\r\n<h1>testing</h1>");
}

#[test]
fn not_found_on_the_wire() {
    let response = Response::new(StatusCode::NotFound, None);
    assert_eq!(response.encode(), "HTTP/1.1 404 Not Found\r\n\r\n");
}

#[test]
fn empty_body_is_like_no_body_on_the_wire() {
    let none = Response::new(StatusCode::OK, None);
    let empty = Response::new(StatusCode::OK, Some(String::new()));
    assert_eq!(none.encode(), "HTTP/1.1 200 Ok\r\n\r\n");
    assert_eq!(empty.encode(), none.encode());
}

#[test]
fn body_goes_out_as_it_is() {
    let body = "line one\r\nline two\n\u{e9}\u{65e5}\0end";
    let response = Response::new(StatusCode::NotFound, Some(body.to_string()));
    assert_eq!(response.encode(), format!("HTTP/1.1 404 Not Found\r\n\r\n{}", body));
}

#[test]
fn response_keeps_what_it_was_made_with() {
    let response = Response::new(StatusCode::NotFound, Some("gone".to_string()));
    assert_eq!(response.status_code(), StatusCode::NotFound);
    assert_eq!(response.body(), Some("gone"));
    let bare = Response::new(StatusCode::OK, None);
    assert_eq!(bare.status_code(), StatusCode::OK);
    assert_eq!(bare.body(), None);
}

#[test]
fn status_codes_and_reason_phrases() {
    assert_eq!(StatusCode::OK.code(), 200);
    assert_eq!(StatusCode::BadRequest.code(), 400);
    assert_eq!(StatusCode::NotFound.code(), 404);
    assert_eq!(StatusCode::OK.reason_phrase(), "Ok");
    assert_eq!(StatusCode::BadRequest.reason_phrase(), "Bad Request");
    assert_eq!(StatusCode::NotFound.reason_phrase(), "Not Found");
}

#[test]
fn status_codes_differ() {
    let all = [StatusCode::OK, StatusCode::BadRequest, StatusCode::NotFound];
    for a in all {
        for b in all {
            assert_eq!(a.code() == b.code(), a == b);
        }
    }
}
