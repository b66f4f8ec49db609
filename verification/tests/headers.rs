use registry_proxy::inner::{
    content_is_json, drops_header, status_is_success, FetchOutcome, UpstreamResponse,
};
use registry_proxy::storage::{duplicate_headers, find_header, ApiStorage, Header};

fn header(name: &str, value: &str) -> Header {
    Header::new(name, value.as_bytes())
}

fn response(status: u16, headers: Vec<Header>, body: &[u8]) -> UpstreamResponse {
    UpstreamResponse { status, headers, body: body.to_vec() }
}

#[test]
fn header_holds_name_and_value() {
    let h = Header::new("etag", b"\"abc\"");
    assert_eq!(h.name, "etag");
    assert_eq!(h.value, b"\"abc\"".to_vec());
    assert_eq!(h.duplicate(), h);
}

#[test]
fn first_header_of_a_name_is_found() {
    let headers = vec![header("a", "1"), header("b", "2"), header("a", "3")];
    assert_eq!(find_header(&headers, "a"), Some(&b"1".to_vec()));
    assert_eq!(find_header(&headers, "b"), Some(&b"2".to_vec()));
    assert_eq!(find_header(&headers, "c"), None);
    assert_eq!(find_header(&headers, "A"), None);
    assert_eq!(find_header(&Vec::new(), "a"), None);
    assert_eq!(duplicate_headers(&headers), headers);
}

#[test]
fn envelope_copy_is_equal() {
    let envelope = ApiStorage {
        headers: vec![header("content-type", "text/plain"), header("content-length", "2")],
        body: b"hi".to_vec(),
    };
    assert_eq!(envelope.duplicate(), envelope);
    assert_eq!(envelope.header("content-length"), Some(&b"2".to_vec()));
    assert_eq!(envelope.header("server"), None);
}

#[test]
fn content_and_cookie_headers_are_dropped() {
    assert!(drops_header("content-type"));
    assert!(drops_header("content-length"));
    assert!(drops_header("content-encoding"));
    assert!(drops_header("content-"));
    assert!(drops_header("cookie"));
    assert!(drops_header("set-cookie"));
    assert!(drops_header("x-cookie-jar"));
    assert!(!drops_header("etag"));
    assert!(!drops_header("x-content-type-options"));
    assert!(!drops_header("content"));
    assert!(!drops_header("Content-Type"));
    assert!(!drops_header("cooki"));
    assert!(!drops_header(""));
}

#[test]
fn success_statuses() {
    assert!(status_is_success(200));
    assert!(status_is_success(204));
    assert!(status_is_success(299));
    assert!(!status_is_success(199));
    assert!(!status_is_success(300));
    assert!(!status_is_success(304));
    assert!(!status_is_success(404));
    assert!(!status_is_success(500));
    assert!(!status_is_success(0));
}

#[test]
fn json_content_types() {
    assert!(content_is_json(&Some(b"application/json".to_vec())));
    assert!(content_is_json(&Some(b"application/json; charset=utf-8".to_vec())));
    assert!(content_is_json(&Some(b"application/vnd.npm.install-v1+json".to_vec())));
    assert!(!content_is_json(&Some(b"application/octet-stream".to_vec())));
    assert!(!content_is_json(&Some(b"application/JSON".to_vec())));
    assert!(!content_is_json(&Some(Vec::new())));
    assert!(!content_is_json(&None));
}

#[test]
fn capture_keeps_status_body_and_other_headers() {
    let outcome = FetchOutcome::capture(response(
        200,
        vec![
            header("date", "today"),
            header("content-type", "application/json"),
            header("set-cookie", "a=b"),
            header("etag", "\"x\""),
            header("content-length", "2"),
            header("content-encoding", "gzip"),
            header("content-disposition", "attachment"),
            header("etag", "\"y\""),
        ],
        b"{}",
    ));
    assert_eq!(outcome.status, 200);
    assert_eq!(outcome.body, b"{}".to_vec());
    assert_eq!(
        outcome.headers,
        vec![header("date", "today"), header("etag", "\"x\""), header("etag", "\"y\"")]
    );
    assert_eq!(outcome.content_type, Some(b"application/json".to_vec()));
    assert_eq!(outcome.content_disposition, Some(b"attachment".to_vec()));
    assert_eq!(outcome.content_transfer_encoding, None);
}

#[test]
fn capture_takes_first_content_type() {
    let outcome = FetchOutcome::capture(response(
        200,
        vec![header("content-type", "text/a"), header("content-type", "text/b")],
        b"",
    ));
    assert_eq!(outcome.content_type, Some(b"text/a".to_vec()));
    assert!(outcome.headers.is_empty());
}

#[test]
fn selected_headers_are_the_allowlist_and_the_length() {
    let outcome = FetchOutcome::capture(response(
        200,
        vec![
            header("server", "nginx"),
            header("content-transfer-encoding", "binary"),
            header("content-type", "application/octet-stream"),
            header("cache-control", "max-age=300"),
            header("content-disposition", "attachment; filename=x.tgz"),
            header("connection", "keep-alive"),
            header("vary", "accept"),
            header("accept-ranges", "bytes"),
            header("content-length", "999"),
        ],
        b"12345",
    ));
    assert_eq!(
        outcome.select_headers(1234),
        vec![
            header("content-type", "application/octet-stream"),
            header("content-disposition", "attachment; filename=x.tgz"),
            header("content-transfer-encoding", "binary"),
            header("content-length", "1234"),
        ]
    );
}

#[test]
fn selected_headers_without_content_headers() {
    let outcome = FetchOutcome::capture(response(200, vec![header("server", "x")], b""));
    assert_eq!(outcome.select_headers(0), vec![header("content-length", "0")]);
}

#[test]
fn selecting_twice_gives_the_same_headers() {
    let upstream = vec![
        header("server", "nginx"),
        header("content-type", "application/json"),
        header("content-length", "17"),
        header("content-disposition", "inline"),
        header("x-frame-options", "deny"),
    ];
    let once = FetchOutcome::capture(response(200, upstream, b"x")).select_headers(42);
    let twice = FetchOutcome::capture(response(200, once.clone(), b"x")).select_headers(42);
    assert_eq!(once, twice);
    assert_eq!(
        once,
        vec![
            header("content-type", "application/json"),
            header("content-disposition", "inline"),
            header("content-length", "42"),
        ]
    );
}
