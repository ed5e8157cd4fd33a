use awall_configurator::cors_middleware::{
    CORSMiddleware, ACCESS_CONTROL_ALLOW_CREDENTIALS, ACCESS_CONTROL_ALLOW_HEADERS,
    ACCESS_CONTROL_ALLOW_METHODS, ACCESS_CONTROL_ALLOW_ORIGIN, ACCESS_CONTROL_MAX_AGE,
};
use awall_configurator::http::{Method, Response, State};

// A request without an `Origin` header, answered by a handler that says hello.
fn perform(middleware: &CORSMiddleware, _url: &str) -> Response {
    let state = State::new(None);
    let response = Response::new(200, "text/plain", "Hello World".to_string());
    middleware.call(&state, response)
}

fn custom() -> CORSMiddleware {
    let methods = vec![Method::Delete, Method::Get, Method::Head, Method::Options];

    let max_age = 1000;

    let origin = Some("http://www.example.com".to_string());

    CORSMiddleware::new(methods, origin, max_age)
}

#[test]
fn test_headers_set() {
    let response = perform(&CORSMiddleware::default(), "https://example.com/");

    assert_eq!(response.status, 200);
    assert_eq!(
        response.header(ACCESS_CONTROL_ALLOW_ORIGIN).unwrap(),
        "*".to_string()
    );
    assert_eq!(
        response.header(ACCESS_CONTROL_MAX_AGE).unwrap(),
        String::from("86400")
    );
}

#[test]
fn test_custom_headers_set() {
    let response = perform(&custom(), "https://example.com/");

    assert_eq!(response.status, 200);
    assert_eq!(
        response.header(ACCESS_CONTROL_ALLOW_ORIGIN).unwrap(),
        "http://www.example.com".to_string()
    );
    assert_eq!(
        response.header(ACCESS_CONTROL_MAX_AGE).unwrap(),
        "1000".to_string()
    );
}

#[test]
fn test_new_cors_middleware() {
    let methods = vec![Method::Delete, Method::Get, Method::Head, Method::Options];

    let max_age = 1000;

    let origin = Some("http://www.example.com".to_string());

    let test = CORSMiddleware::new(methods.clone(), origin.clone(), max_age.clone());

    let default = CORSMiddleware::default();

    assert_ne!(test, default);

    assert_eq!(test.origin, origin);
    assert_eq!(test.max_age, max_age);
    assert_eq!(test.methods, methods);
}

#[test]
fn test_default_cors_middleware() {
    let test = CORSMiddleware::default();
    let methods = vec![
        Method::Delete,
        Method::Get,
        Method::Head,
        Method::Options,
        Method::Patch,
        Method::Post,
        Method::Put,
    ];

    assert_eq!(test.methods, methods);

    assert_eq!(test.max_age, 86400);

    assert_eq!(test.origin, None);
}

#[test]
fn all_five_headers_are_set() {
    let response = perform(&CORSMiddleware::default(), "https://example.com/");

    assert_eq!(response.headers.len(), 5);
    assert_eq!(response.header(ACCESS_CONTROL_ALLOW_CREDENTIALS), Some("true"));
    assert_eq!(
        response.header(ACCESS_CONTROL_ALLOW_HEADERS),
        Some("Authorization, Content-Type")
    );
    assert_eq!(response.header(ACCESS_CONTROL_ALLOW_ORIGIN), Some("*"));
    assert_eq!(
        response.header(ACCESS_CONTROL_ALLOW_METHODS),
        Some("DELETE, GET, HEAD, OPTIONS, PATCH, POST, PUT")
    );
    assert_eq!(response.header(ACCESS_CONTROL_MAX_AGE), Some("86400"));
    assert_eq!(response.mime, "text/plain");
    assert_eq!(response.body, "Hello World");
}

#[test]
fn header_names_are_those_of_the_protocol() {
    assert_eq!(ACCESS_CONTROL_ALLOW_CREDENTIALS, "access-control-allow-credentials");
    assert_eq!(ACCESS_CONTROL_ALLOW_HEADERS, "access-control-allow-headers");
    assert_eq!(ACCESS_CONTROL_ALLOW_ORIGIN, "access-control-allow-origin");
    assert_eq!(ACCESS_CONTROL_ALLOW_METHODS, "access-control-allow-methods");
    assert_eq!(ACCESS_CONTROL_MAX_AGE, "access-control-max-age");
}

#[test]
fn origin_of_the_request_is_echoed() {
    let state = State::new(Some("https://app.example.org".to_string()));
    let response = Response::new(200, "text/plain", String::new());
    let out = CORSMiddleware::default().call(&state, response);
    assert_eq!(out.header(ACCESS_CONTROL_ALLOW_ORIGIN), Some("https://app.example.org"));
}

#[test]
fn fixed_origin_wins_over_the_request() {
    let state = State::new(Some("https://app.example.org".to_string()));
    let response = Response::new(200, "text/plain", String::new());
    let out = custom().call(&state, response);
    assert_eq!(out.header(ACCESS_CONTROL_ALLOW_ORIGIN), Some("http://www.example.com"));
    assert_eq!(out.header(ACCESS_CONTROL_ALLOW_METHODS), Some("DELETE, GET, HEAD, OPTIONS"));
}

#[test]
fn headers_are_set_on_an_error_too() {
    let state = State::new(None);
    let response = Response::new(500, "application/json", "{\"message\":\"x\"}".to_string());
    let out = CORSMiddleware::default().call(&state, response);
    assert_eq!(out.status, 500);
    assert_eq!(out.body, "{\"message\":\"x\"}");
    assert_eq!(out.header(ACCESS_CONTROL_ALLOW_ORIGIN), Some("*"));
    assert_eq!(out.header(ACCESS_CONTROL_ALLOW_CREDENTIALS), Some("true"));
}

#[test]
fn inserting_replaces_what_was_there() {
    let state = State::new(None);
    let mut response = Response::new(200, "text/plain", String::new());
    response.headers.push((ACCESS_CONTROL_ALLOW_ORIGIN.to_string(), "one".to_string()));
    response.headers.push(("x-trace".to_string(), "abc".to_string()));
    response.headers.push((ACCESS_CONTROL_ALLOW_ORIGIN.to_string(), "two".to_string()));
    let out = custom().call(&state, response);
    let origins: Vec<&(String, String)> =
        out.headers.iter().filter(|h| h.0 == ACCESS_CONTROL_ALLOW_ORIGIN).collect();
    assert_eq!(origins.len(), 1);
    assert_eq!(origins[0].1, "http://www.example.com");
    assert_eq!(out.header("x-trace"), Some("abc"));
    assert_eq!(out.headers.len(), 6);
    assert_eq!(out.headers[0], ("x-trace".to_string(), "abc".to_string()));
}

#[test]
fn no_methods_give_an_empty_list() {
    let middleware = CORSMiddleware::new(Vec::new(), None, 0);
    assert_eq!(middleware.method_list(), "");
    let out = middleware.call(&State::new(None), Response::new(204, "text/plain", String::new()));
    assert_eq!(out.header(ACCESS_CONTROL_ALLOW_METHODS), Some(""));
    assert_eq!(out.header(ACCESS_CONTROL_MAX_AGE), Some("0"));
}

#[test]
fn one_method_has_no_separator() {
    let middleware = CORSMiddleware::new(vec![Method::Trace], None, u32::MAX);
    assert_eq!(middleware.method_list(), "TRACE");
    let out = middleware.call(&State::new(None), Response::new(200, "text/plain", String::new()));
    assert_eq!(out.header(ACCESS_CONTROL_MAX_AGE), Some("4294967295"));
}

#[test]
fn methods_are_written_as_in_a_request() {
    assert_eq!(Method::Options.as_str(), "OPTIONS");
    assert_eq!(Method::Get.as_str(), "GET");
    assert_eq!(Method::Post.as_str(), "POST");
    assert_eq!(Method::Put.as_str(), "PUT");
    assert_eq!(Method::Delete.as_str(), "DELETE");
    assert_eq!(Method::Head.as_str(), "HEAD");
    assert_eq!(Method::Trace.as_str(), "TRACE");
    assert_eq!(Method::Connect.as_str(), "CONNECT");
    assert_eq!(Method::Patch.as_str(), "PATCH");
}

#[test]
fn response_header_lookup_finds_the_first() {
    let mut response = Response::new(200, "text/plain", String::new());
    assert_eq!(response.header("a"), None);
    response.headers.push(("a".to_string(), "1".to_string()));
    response.headers.push(("a".to_string(), "2".to_string()));
    assert_eq!(response.header("a"), Some("1"));
    response.insert_header("a", "3".to_string());
    assert_eq!(response.headers, vec![("a".to_string(), "3".to_string())]);
    response.insert_header("b", "4".to_string());
    assert_eq!(response.header("a"), Some("3"));
    assert_eq!(response.header("b"), Some("4"));
}
