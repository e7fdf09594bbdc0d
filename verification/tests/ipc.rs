use nebula_dm::ipc::{http_response, read_http_request_body};

#[test]
fn response_contains_http_status_line() {
    let response = http_response("202 Accepted", "{\"status\":\"queued\"}");
    assert!(response.starts_with("HTTP/1.1 202 Accepted"));
}

#[test]
fn response_states_the_body_length_in_bytes() {
    let response = http_response("200 OK", "héllo");
    assert_eq!(
        response,
        "HTTP/1.1 200 OK\r\nContent-Type: application/json\r\nContent-Length: 6\r\nConnection: close\r\n\r\nhéllo"
    );
}

#[test]
fn request_body_follows_the_blank_line() {
    let raw = "POST / HTTP/1.1\r\nHost: x\r\n\r\n{\"a\":1}";
    assert_eq!(read_http_request_body(raw), Ok("{\"a\":1}".to_owned()));
}

#[test]
fn request_without_body_is_refused() {
    assert_eq!(read_http_request_body("POST / HTTP/1.1\r\n"), Err("missing request body".to_owned()));
}

#[test]
fn request_other_than_post_is_refused() {
    assert_eq!(read_http_request_body("GET / HTTP/1.1\r\n\r\n"), Err("only POST is supported".to_owned()));
}
