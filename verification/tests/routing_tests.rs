use http_server::{
    HttpRequest, PageNotFoundHandler, RouteTarget, Router, Server, StaticFileHandler,
    WebServiceHandler,
};

fn request_for(raw: &str) -> HttpRequest {
    HttpRequest::parse(raw).unwrap()
}

#[test]
fn test_route_get_root_is_static() {
    let req = request_for("GET / HTTP/1.1\r\n\r\n");
    assert_eq!(Router::route(&req), RouteTarget::StaticFile);
    assert_eq!(StaticFileHandler::target_file("/"), "index.html");
}

#[test]
fn test_route_get_health_is_static() {
    let req = request_for("GET /health HTTP/1.1\r\n\r\n");
    assert_eq!(Router::route(&req), RouteTarget::StaticFile);
    assert_eq!(StaticFileHandler::target_file("/health"), "health.html");
}

#[test]
fn test_route_get_api_is_api() {
    let req = request_for("GET /api/shipping/orders HTTP/1.1\r\n\r\n");
    assert_eq!(Router::route(&req), RouteTarget::Api);
}

#[test]
fn test_route_post_gets_no_response() {
    let req = request_for("POST /anything HTTP/1.1\r\n\r\n");
    assert_eq!(Router::route(&req), RouteTarget::NoResponse);
}

#[test]
fn test_route_put_is_not_found() {
    let req = request_for("PUT /anything HTTP/1.1\r\n\r\n");
    assert_eq!(Router::route(&req), RouteTarget::NotFound);
}

#[test]
fn test_static_handler_serves_loaded_file() {
    let response = StaticFileHandler::handle(
        "/style.css",
        Some(String::from("body {}")),
        Some(String::from("missing")),
    );
    assert_eq!(response.status_code(), 200);
    assert_eq!(
        response.headers,
        Some(vec![(String::from("Content-Type"), String::from("text/css"))])
    );
    assert_eq!(response.body(), "body {}");
}

#[test]
fn test_static_handler_missing_file_is_404() {
    let response = StaticFileHandler::handle("/ghost.html", None, Some(String::from("gone")));
    assert_eq!(response.status_code(), 404);
    assert_eq!(response.status_message(), "Not Found");
    assert_eq!(
        response.headers,
        Some(vec![(String::from("Content-Type"), String::from("text/html"))])
    );
    assert_eq!(response.body(), "gone");
}

#[test]
fn test_content_type_inference() {
    let cases: Vec<(&str, &str)> = vec![
        ("a.css", "text/css"),
        ("a.js", "text/javascript"),
        ("a.html", "text/html"),
        ("a.png", "image/png"),
        ("a.jpg", "image/jpeg"),
        ("a.gif", "image/gif"),
        ("a.txt", "text/html"),
        ("plain", "text/html"),
    ];
    for (name, expected) in cases {
        assert_eq!(http_server::handler::content_type_for(name), expected);
    }
}

#[test]
fn test_api_handler_reencodes_orders() {
    let doc = "[ {\"order_id\": \"1\", \"order_date\": \"2021-01-01\", \"order_status\": \"shipped\"} ]";
    let response = WebServiceHandler::handle("/api/shipping/orders", Some(doc), None);
    assert_eq!(response.status_code(), 200);
    assert_eq!(
        response.headers,
        Some(vec![(String::from("Content-Type"), String::from("application/json"))])
    );
    assert_eq!(
        response.body(),
        "[{\"order_date\":\"2021-01-01\",\"order_id\":\"1\",\"order_status\":\"shipped\"}]"
    );
}

#[test]
fn test_api_handler_malformed_orders_is_500() {
    let response = WebServiceHandler::handle("/api/shipping/orders", Some("not json"), None);
    assert_eq!(response.status_code(), 500);
    assert_eq!(response.status_message(), "Internal Server Error");
    assert_eq!(response.body(), "");
}

#[test]
fn test_api_handler_missing_orders_is_500() {
    let response = WebServiceHandler::handle("/api/shipping/orders", None, None);
    assert_eq!(response.status_code(), 500);
}

#[test]
fn test_api_handler_other_path_is_404() {
    let response =
        WebServiceHandler::handle("/api/other", Some("[]"), Some(String::from("gone")));
    assert_eq!(response.status_code(), 404);
    assert_eq!(response.body(), "gone");
}

#[test]
fn test_page_not_found_handler() {
    let response = PageNotFoundHandler::handle(Some(String::from("404 page")));
    assert_eq!(response.status_code(), 404);
    assert_eq!(response.status_message(), "Not Found");
    assert_eq!(response.body(), "404 page");

    let empty = PageNotFoundHandler::handle(None);
    assert_eq!(empty.status_code(), 404);
    assert_eq!(empty.body(), "");
}

#[test]
fn test_first_segment() {
    assert_eq!(http_server::handler::first_segment("/api/x"), "api");
    assert_eq!(http_server::handler::first_segment("/"), "");
    assert_eq!(http_server::handler::first_segment(""), "");
}

#[test]
fn test_server_new_keeps_address() {
    let server = Server::new("127.0.0.1:8081");
    assert_eq!(server.socket_addr, "127.0.0.1:8081");
}

#[test]
fn test_order_status_fields() {
    let order = http_server::OrderStatus {
        order_id: String::from("1"),
        order_date: String::from("2021-01-01"),
        order_status: String::from("shipped"),
    };
    assert_eq!(order.order_id, "1");
    assert_eq!(order.order_date, "2021-01-01");
    assert_eq!(order.order_status, "shipped");
}
