use adapter_core::http::{
    head_len, parse_request, percent_decode, response_head, route, text_response, Route,
};

#[test]
fn head_detection() {
    assert_eq!(head_len(b"GET / HTTP/1.1\r\nHost: x\r\n"), None);
    assert_eq!(head_len(b"GET / HTTP/1.1\r\nHost: x\r\n\r\nbody"), Some(27));
    assert_eq!(head_len(b"GET / HTTP/1.0\n\n"), Some(16));
}

#[test]
fn request_line() {
    let r = parse_request(b"GET /?t=1 HTTP/1.1\r\nHost: cam\r\n\r\n").unwrap();
    assert_eq!(r.method, "GET");
    assert_eq!(r.target, "/?t=1");
    assert_eq!(r.path(), "/");
    assert_eq!(route(&r), Route::Snapshot { head_only: false });
    let r = parse_request(b"HEAD /snapshot.jpg HTTP/1.0\r\n\r\n").unwrap();
    assert_eq!(route(&r), Route::Snapshot { head_only: true });
    let r = parse_request(b"POST / HTTP/1.1\r\n\r\n").unwrap();
    assert_eq!(route(&r), Route::MethodNotAllowed);
    let r = parse_request(b"GET /favicon.ico HTTP/1.1\r\n\r\n").unwrap();
    assert_eq!(route(&r), Route::NotFound);
    let r = parse_request(b"GET /controls HTTP/1.1\r\n\r\n").unwrap();
    assert_eq!(route(&r), Route::Controls);
    let r = parse_request(b"PUT /controls HTTP/1.1\r\n\r\n").unwrap();
    assert_eq!(route(&r), Route::MethodNotAllowed);
    assert_eq!(parse_request(b"GET / HTTP/2\r\n\r\n"), None);
    assert_eq!(parse_request(b"GET /\r\n\r\n"), None);
    assert_eq!(parse_request(b"get / HTTP/1.1\r\n\r\n"), None);
    assert_eq!(parse_request(b"GET http://x/ HTTP/1.1\r\n\r\n"), None);
    assert_eq!(parse_request(b"\x16\x03\x01\x00\xff"), None);
}

#[test]
fn query_parameters() {
    let r = parse_request(
        b"GET /?wb=auto&zoom=200&brightness=-3&note=a%20b+c&flag HTTP/1.1\r\n\r\n",
    )
    .unwrap();
    assert_eq!(
        r.query(),
        vec![
            ("wb".to_string(), "auto".to_string()),
            ("zoom".to_string(), "200".to_string()),
            ("brightness".to_string(), "-3".to_string()),
            ("note".to_string(), "a b c".to_string()),
            ("flag".to_string(), String::new()),
        ]
    );
    assert_eq!(
        parse_request(b"GET / HTTP/1.1\r\n\r\n").unwrap().query(),
        vec![]
    );
    assert_eq!(percent_decode("100%"), "100%");
    assert_eq!(percent_decode("%zz"), "%zz");
}

#[test]
fn responses() {
    let h = String::from_utf8(response_head(200, "image/jpeg", 12345)).unwrap();
    assert!(h.starts_with("HTTP/1.1 200 OK\r\n"));
    assert!(h.contains("Content-Type: image/jpeg\r\n"));
    assert!(h.contains("Content-Length: 12345\r\n"));
    assert!(h.contains("Cache-Control: no-store\r\n"));
    assert!(h.ends_with("Connection: close\r\n\r\n"));
    let t = String::from_utf8(text_response(404, "not found")).unwrap();
    assert!(t.starts_with("HTTP/1.1 404 Not Found\r\n"));
    assert!(t.contains("Content-Length: 10\r\n"));
    assert!(t.ends_with("\r\n\r\nnot found\n"));
    let m = String::from_utf8(text_response(405, "x")).unwrap();
    assert!(m.contains("Allow: GET, HEAD\r\n"));
}
