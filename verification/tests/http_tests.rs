use http_server::{HttpRequest, HttpResponse, Method, Resource, Version};

#[test]
fn test_method_from_str() {
    assert_eq!(Method::from("GET"), Method::Get);
    assert_eq!(Method::from("POST"), Method::Post);
    assert_eq!(Method::from("PUT"), Method::Put);
    assert_eq!(Method::from("DELETE"), Method::Delete);
    assert_eq!(Method::from("HEAD"), Method::Head);
    assert_eq!(Method::from("OPTIONS"), Method::Options);
    assert_eq!(Method::from("TRACE"), Method::Trace);
    assert_eq!(Method::from("CONNECT"), Method::Connect);
    assert_eq!(Method::from("PATCH"), Method::Patch);
}

#[test]
fn test_method_into() {
    let m: Method = Method::from("GET");
    assert_eq!(m, Method::Get);
}

#[test]
fn test_version_from_str() {
    assert_eq!(Version::from("HTTP/1.1"), Version::V1_1);
    assert_eq!(Version::from("HTTP/2.0"), Version::V2_0);
    assert_eq!(Version::from("HTTP/3.0"), Version::Uninitialized);
}

#[test]
fn test_version_into() {
    let v: Version = Version::from("HTTP/1.1");
    assert_eq!(v, Version::V1_1);
}

#[test]
fn test_read_http() {
    let s: String = String::from(
        "GET /hello HTTP/1.1\r\nHost: localhost:8080\r\nUser-Agent: curl/7.54.0\r\nAccept: */*\r\n\r\n",
    );
    let req = HttpRequest::from(s);
    assert_eq!(req.method, Method::Get);
    assert_eq!(req.version, Version::V1_1);
    assert_eq!(req.resource, Resource::Path(String::from("/hello")));
    assert_eq!(req.headers.len(), 3);
    assert_eq!(req.header("Host"), Some(&String::from(" localhost:8080")));
    assert_eq!(req.header("User-Agent"), Some(&String::from(" curl/7.54.0")));
    assert_eq!(req.header("Accept"), Some(&String::from(" */*")));
    assert_eq!(req.body, "");
}

#[test]
fn test_http_response_creation_200() {
    let response_actual = HttpResponse::new(200, None, Some(String::from("Hello World")));

    let response_expected = HttpResponse {
        version: String::from("HTTP/1.1"),
        status_code: 200,
        status_message: String::from("OK"),
        headers: Some(vec![(String::from("Content-Type"), String::from("text/html"))]),
        body: Some(String::from("Hello World")),
    };
    assert_eq!(response_actual, response_expected);
}

#[test]
fn test_http_response_creation_400() {
    let response_actual = HttpResponse::new(400, None, Some(String::from("Hello World")));

    let response_expected = HttpResponse {
        version: String::from("HTTP/1.1"),
        status_code: 400,
        status_message: String::from("Bad Request"),
        headers: Some(vec![(String::from("Content-Type"), String::from("text/html"))]),
        body: Some(String::from("Hello World")),
    };
    assert_eq!(response_actual, response_expected);
}

#[test]
fn test_http_response_creation_401() {
    let response_actual = HttpResponse::new(401, None, Some(String::from("Hello World")));

    let response_expected = HttpResponse {
        version: String::from("HTTP/1.1"),
        status_code: 401,
        status_message: String::from("Unauthorized"),
        headers: Some(vec![(String::from("Content-Type"), String::from("text/html"))]),
        body: Some(String::from("Hello World")),
    };
    assert_eq!(response_actual, response_expected);
}

#[test]
fn test_http_response_creation() {
    let response_expected = HttpResponse {
        version: String::from("HTTP/1.1"),
        status_code: 200,
        status_message: String::from("OK"),
        headers: Some(vec![(String::from("Content-Type"), String::from("text/html"))]),
        body: Some(String::from("Hello World")),
    };
    let expected: String = response_expected.serialize();
    let actual = String::from(
        "HTTP/1.1 200 OK\r\nContent-Length:11\r\nContent-Type:text/html\r\n\r\nHello World",
    );
    assert_eq!(expected, actual);
}

#[test]
fn test_status_message_table() {
    let cases: Vec<(u16, &str)> = vec![
        (200, "OK"),
        (400, "Bad Request"),
        (401, "Unauthorized"),
        (403, "Forbidden"),
        (404, "Not Found"),
        (500, "Internal Server Error"),
        (999, "Unknown Error"),
    ];
    for (code, message) in cases {
        assert_eq!(http_server::http_response::status_message_for(code), message);
        let response = HttpResponse::new(code, None, Some(String::from("x")));
        assert_eq!(response.status_message(), message);
    }
}

#[test]
fn test_serialize_no_body_gives_content_length_zero() {
    let response = HttpResponse::new(404, None, None);
    assert_eq!(
        response.serialize(),
        "HTTP/1.1 404 Not Found\r\nContent-Length:0\r\nContent-Type:text/html\r\n\r\n"
    );
}

#[test]
fn test_serialize_counts_bytes_not_chars() {
    let response = HttpResponse::new(200, None, Some(String::from("héllo")));
    let wire = response.serialize();
    assert!(wire.contains("Content-Length:6\r\n"));
}

#[test]
fn test_serialize_keeps_header_order() {
    let headers = vec![
        (String::from("X-One"), String::from("1")),
        (String::from("X-Two"), String::from("2")),
    ];
    let response = HttpResponse::new(200, Some(headers), Some(String::from("hi")));
    assert_eq!(
        response.serialize(),
        "HTTP/1.1 200 OK\r\nContent-Length:2\r\nX-One:1\r\nX-Two:2\r\n\r\nhi"
    );
}

#[test]
fn test_send_response_writes_serialized_bytes() {
    let response = HttpResponse::new(200, None, Some(String::from("Hello World")));
    let mut sink: Vec<u8> = Vec::new();
    response.send_response(&mut sink).unwrap();
    assert_eq!(String::from_utf8(sink).unwrap(), response.serialize());
}

#[test]
fn test_parse_rejects_unknown_method() {
    assert_eq!(Method::try_from_token("BREW"), None);
    assert!(HttpRequest::parse("BREW /pot HTTP/1.1\r\n\r\n").is_none());
}

#[test]
fn test_parse_rejects_short_start_line() {
    assert!(HttpRequest::parse("HTTP\r\n\r\n").is_none());
}

#[test]
fn test_header_value_kept_verbatim() {
    let (key, value) = http_server::http_request::process_req_header("Key: value");
    assert_eq!(key, "Key");
    assert_eq!(value, " value");
}

#[test]
fn test_header_splits_at_first_colon_only() {
    let (key, value) = http_server::http_request::process_req_header("Host: localhost:8080");
    assert_eq!(key, "Host");
    assert_eq!(value, " localhost:8080");
}

#[test]
fn test_header_line_without_colon() {
    let (key, value) = http_server::http_request::process_req_header("plain");
    assert_eq!(key, "plain");
    assert_eq!(value, "");
}

#[test]
fn test_process_req_line_tokens() {
    let (method, resource, version) =
        http_server::http_request::process_req_line("POST /submit HTTP/2.0");
    assert_eq!(method, Method::Post);
    assert_eq!(resource, Resource::Path(String::from("/submit")));
    assert_eq!(version, Version::V2_0);
}

#[test]
fn test_last_body_line_wins() {
    let req = HttpRequest::from(String::from("GET /x HTTP/1.1\r\nfirst\r\nsecond"));
    assert_eq!(req.body, "second");
}
