use http_server::http::{Method, MethodError};
use std::str::FromStr;

#[test]
fn every_name_is_a_method() {
    assert_eq!(Method::from_str("GET"), Ok(Method::GET));
    assert_eq!(Method::from_str("DELETE"), Ok(Method::DELETE));
    assert_eq!(Method::from_str("POST"), Ok(Method::POST));
    assert_eq!(Method::from_str("PUT"), Ok(Method::PUT));
    assert_eq!(Method::from_str("HEAD"), Ok(Method::HEAD));
    assert_eq!(Method::from_str("CONNECT"), Ok(Method::CONNECT));
    assert_eq!(Method::from_str("OPTIONS"), Ok(Method::OPTIONS));
    assert_eq!(Method::from_str("TRACE"), Ok(Method::TRACE));
    assert_eq!(Method::from_str("PATCH"), Ok(Method::PATCH));
}

#[test]
fn parse_goes_through_from_str() {
    let m: Result<Method, MethodError> = "PUT".parse();
    assert_eq!(m, Ok(Method::PUT));
}

#[test]
fn other_text_is_refused() {
    assert_eq!(Method::from_str("get"), Err(MethodError));
    assert_eq!(Method::from_str("Get"), Err(MethodError));
    assert_eq!(Method::from_str(""), Err(MethodError));
    assert_eq!(Method::from_str("GET "), Err(MethodError));
    assert_eq!(Method::from_str(" GET"), Err(MethodError));
    assert_eq!(Method::from_str("GETS"), Err(MethodError));
    assert_eq!(Method::from_str("GE"), Err(MethodError));
    assert_eq!(Method::from_str("FETCH"), Err(MethodError));
}

#[test]
fn a_method_is_found_again_by_its_name() {
    let all = [
        Method::GET,
        Method::DELETE,
        Method::POST,
        Method::PUT,
        Method::HEAD,
        Method::CONNECT,
        Method::OPTIONS,
        Method::TRACE,
        Method::PATCH,
    ];
    for m in all {
        assert_eq!(Method::from_str(m.as_str()), Ok(m));
    }
    assert_eq!(Method::OPTIONS.as_str(), "OPTIONS");
}
