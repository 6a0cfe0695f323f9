use server::request::build_response;
use server::request::lookup_path;
use server::request::resolve_route;
use server::request::usize_to_decimal;
use server::request::RequestError;
use server::request::RequestObject;

#[test]
fn get_root_parses_to_method_and_route() {
    let req = String::from("GET / HTTP/1.1");
    let obj = RequestObject::new(&req).unwrap();
    assert_eq!(obj.method, "GET");
    assert_eq!(obj.route, "/");
}

#[test]
fn get_named_file_parses_route() {
    let req = String::from("GET /missing.html HTTP/1.1");
    let obj = RequestObject::new(&req).unwrap();
    assert_eq!(obj.method, "GET");
    assert_eq!(obj.route, "/missing.html");
}

#[test]
fn post_is_rejected_as_invalid_method() {
    let req = String::from("POST / HTTP/1.1");
    let r = RequestObject::new(&req);
    assert!(matches!(r, Err(RequestError::InvalidMethod)));
}

#[test]
fn route_without_leading_slash_is_rejected() {
    let req = String::from("GET index.html HTTP/1.1");
    let r = RequestObject::new(&req);
    assert!(matches!(r, Err(RequestError::InvalidRoute)));
}

#[test]
fn request_without_second_token_is_malformed() {
    let req = String::from("GET");
    let r = RequestObject::new(&req);
    assert!(matches!(r, Err(RequestError::Malformed)));
}

#[test]
fn empty_route_between_two_spaces_is_rejected() {
    let req = String::from("GET  HTTP/1.1");
    let r = RequestObject::new(&req);
    assert!(matches!(r, Err(RequestError::InvalidRoute)));
}

#[test]
fn extensionless_routes_resolve_to_index() {
    assert_eq!(resolve_route(&String::from("/")), "/index.html");
    assert_eq!(resolve_route(&String::from("/about")), "/index.html");
    assert_eq!(resolve_route(&String::from("/index.html")), "/index.html");
}

#[test]
fn file_routes_resolve_to_themselves() {
    assert_eq!(resolve_route(&String::from("/missing.html")), "/missing.html");
    assert_eq!(resolve_route(&String::from("/style.css")), "/style.css");
}

#[test]
fn lookup_path_joins_base_directory_and_resolved_route() {
    assert_eq!(lookup_path(&String::from("public"), &String::from("/")), "public/index.html");
    assert_eq!(
        lookup_path(&String::from("/srv/www"), &String::from("/a.html")),
        "/srv/www/a.html"
    );
}

#[test]
fn decimal_rendering_is_exact() {
    assert_eq!(usize_to_decimal(0), "0");
    assert_eq!(usize_to_decimal(7), "7");
    assert_eq!(usize_to_decimal(10), "10");
    assert_eq!(usize_to_decimal(1024), "1024");
    assert_eq!(usize_to_decimal(usize::MAX), usize::MAX.to_string());
}

#[test]
fn response_carries_status_200_length_and_body() {
    let body = String::from("<html>hello</html>");
    let resp = build_response(&body);
    assert_eq!(
        resp,
        format!("HTTP/1.1 200 OK\r\nContent-Length: {}\r\n\r\n{}", body.len(), body)
    );
}

#[test]
fn response_of_empty_body_has_length_zero() {
    let resp = build_response(&String::new());
    assert_eq!(resp, "HTTP/1.1 200 OK\r\nContent-Length: 0\r\n\r\n");
}

#[test]
fn content_length_counts_bytes_not_characters() {
    let body = String::from("caf\u{e9}");
    let resp = build_response(&body);
    // four characters, five bytes in UTF-8
    assert_eq!(resp, format!("HTTP/1.1 200 OK\r\nContent-Length: 5\r\n\r\n{}", body));
}

#[test]
fn served_index_scenario_returns_200_with_file_body() {
    // `GET / HTTP/1.1` against a base directory holding index.html:
    // the handler looks up <dir>/index.html and answers 200 with its bytes
    let req = String::from("GET / HTTP/1.1");
    let obj = RequestObject::new(&req).unwrap();
    let path = lookup_path(&String::from("site"), &obj.route);
    assert_eq!(path, "site/index.html");
    let file_body = String::from("<html>index</html>");
    let resp = build_response(&file_body);
    assert!(resp.starts_with("HTTP/1.1 200 OK\r\n"));
    assert!(resp.ends_with(&file_body));
}

#[test]
fn missing_file_scenario_still_returns_200_with_fallback_body() {
    // `GET /missing.html HTTP/1.1` with no such file: the lookup path
    // names the missing file, the handler substitutes the fallback
    // document, and the status line stays 200
    let req = String::from("GET /missing.html HTTP/1.1");
    let obj = RequestObject::new(&req).unwrap();
    let path = lookup_path(&String::from("site"), &obj.route);
    assert_eq!(path, "site/missing.html");
    let fallback = String::from("<html>not found</html>");
    let resp = build_response(&fallback);
    assert_eq!(
        resp,
        format!("HTTP/1.1 200 OK\r\nContent-Length: {}\r\n\r\n{}", fallback.len(), fallback)
    );
}
