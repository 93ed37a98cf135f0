use policy_local::{
    content_length_of, error_payload, error_response, find_header_end, frame_response,
    parse_content_length, render_response, status_text, BodyError, BodyRead,
    MAX_POLICY_LOCAL_BODY_BYTES, MAX_READ_BYTES,
};

fn request(content_length: &str, rest: &[u8]) -> Vec<u8> {
    let mut bytes =
        format!("POST /v1/proposals HTTP/1.1\r\nContent-Length: {content_length}\r\n\r\n")
            .into_bytes();
    bytes.extend_from_slice(rest);
    bytes
}

/// Reads a body from a client that sends `sent` in chunks of at most `size`.
fn read_all(initial: &[u8], sent: &[u8], size: usize) -> Result<Vec<u8>, BodyError> {
    let mut read = BodyRead::begin(initial)?;
    let mut at = 0;
    while read.wanted() > 0 {
        let n = read.wanted().min(size).min(sent.len() - at);
        read = read.feed(&sent[at..at + n])?;
        at += n;
    }
    Ok(read.into_body())
}

#[test]
fn header_end_is_behind_the_first_empty_line() {
    assert_eq!(find_header_end(b""), None);
    assert_eq!(find_header_end(b"\r\n\r"), None);
    assert_eq!(find_header_end(b"\r\n\r\n"), Some(4));
    assert_eq!(find_header_end(b"GET / HTTP/1.1\r\n\r\nbody\r\n\r\n"), Some(18));
    assert_eq!(find_header_end(b"a\n\nb\r\n \r\n"), None);
    assert_eq!(find_header_end(b"\r\r\n\r\n"), Some(5));
    assert_eq!(find_header_end(b"\r\n\r\r\n\r\n"), Some(7));
}

#[test]
fn content_length_is_that_of_the_first_such_header() {
    assert_eq!(parse_content_length(b"POST / HTTP/1.1\r\nContent-Length: 12\r\n\r\n"), Ok(12));
    assert_eq!(parse_content_length(b"POST /\r\ncOnTeNt-LENGTH:\t+12 \r\n"), Ok(12));
    assert_eq!(parse_content_length(b"POST /\nContent-Length:3\nContent-Length:4\n"), Ok(3));
    assert_eq!(parse_content_length(b"POST /\r\nHost: x\r\n\r\n"), Ok(0));
    assert_eq!(parse_content_length(b"POST /\r\nContent-Length : 4\r\n"), Ok(0));
    assert_eq!(parse_content_length(b"POST /\r\nno colon\r\nContent-Length:4"), Ok(4));
    assert_eq!(parse_content_length(b""), Ok(0));
}

#[test]
fn request_line_is_no_header() {
    assert_eq!(parse_content_length(b"Content-Length: 5\r\n\r\n"), Ok(0));
    assert_eq!(content_length_of("Content-Length: x\r\nContent-Length: 5"), Some(5));
}

#[test]
fn content_length_must_be_a_number() {
    for value in ["", " ", "x", "-1", "1 2", "1,2", "0x10", "18446744073709551616"] {
        assert_eq!(
            parse_content_length(format!("POST /\r\nContent-Length:{value}\r\n\r\n").as_bytes()),
            Err(BodyError::InvalidContentLength),
            "{value}"
        );
        assert_eq!(content_length_of(&format!("\nContent-Length:{value}")), None);
    }
}

#[test]
fn head_need_not_be_utf8() {
    assert_eq!(parse_content_length(b"POST /\xff\r\nX: \xc3\r\nContent-Length: 9\r\n"), Ok(9));
    assert_eq!(
        parse_content_length(b"POST /\r\nContent-Length: 9\xff\r\n"),
        Err(BodyError::InvalidContentLength)
    );
    assert_eq!(parse_content_length("POST /é\r\nContent-Length:\u{3000}9\r\n".as_bytes()), Ok(9));
}

#[test]
fn request_without_the_end_of_its_head_has_no_body() {
    assert_eq!(read_all(b"POST / HTTP/1.1\r\nContent-Length: 5\r\n", b"", 1), Ok(Vec::new()));
}

#[test]
fn body_comes_with_the_head_or_behind_it() {
    assert_eq!(read_all(&request("5", b"hello"), b"", 1), Ok(b"hello".to_vec()));
    assert_eq!(read_all(&request("5", b"hello world"), b"", 1), Ok(b"hello".to_vec()));
    assert_eq!(read_all(&request("5", b"he"), b"llo world", 100), Ok(b"hello".to_vec()));
    assert_eq!(read_all(&request("5", b""), b"hello", 1), Ok(b"hello".to_vec()));
    assert_eq!(read_all(&request("0", b"hello"), b"", 1), Ok(Vec::new()));
}

#[test]
fn body_is_the_same_however_it_is_cut() {
    let sent: Vec<u8> = (0..20_000u32).map(|n| (n % 251) as u8).collect();
    for size in [1, 7, 4096, 8192, 100_000] {
        assert_eq!(read_all(&request("20000", b""), &sent, size), Ok(sent.clone()));
        assert_eq!(read_all(&request("20000", &sent[..9]), &sent[9..], size), Ok(sent.clone()));
    }
}

#[test]
fn body_that_ends_early_is_refused() {
    assert_eq!(read_all(&request("5", b"he"), b"ll", 1), Err(BodyError::EndedEarly));
    assert_eq!(BodyError::EndedEarly.message(), "policy.local request body ended early");
}

#[test]
fn body_over_the_limit_is_refused() {
    assert_eq!(MAX_POLICY_LOCAL_BODY_BYTES, 65536);
    assert!(BodyRead::begin(&request("65536", b"")).is_ok());
    assert!(matches!(BodyRead::begin(&request("65537", b"")), Err(BodyError::TooLarge)));
    assert!(matches!(BodyRead::with_length(b"", usize::MAX), Err(BodyError::TooLarge)));
    assert_eq!(BodyError::TooLarge.message(), "policy.local request body exceeds 65536 bytes");
}

#[test]
fn invalid_content_length_is_refused() {
    assert!(matches!(
        BodyRead::begin(&request("five", b"hello")),
        Err(BodyError::InvalidContentLength)
    ));
    assert_eq!(BodyError::InvalidContentLength.message(), "invalid policy.local Content-Length");
}

#[test]
fn reads_are_no_larger_than_what_is_missing() {
    assert_eq!(MAX_READ_BYTES, 8192);
    let read = BodyRead::with_length(b"abc", 8196).unwrap();
    assert_eq!(read.wanted(), 8192);
    let read = read.feed(b"d").unwrap();
    assert_eq!(read.wanted(), 8192);
    let read = read.feed(&[0; 8000]).unwrap();
    assert_eq!(read.wanted(), 192);
}

#[test]
fn status_has_a_reason() {
    assert_eq!(status_text(200), "OK");
    assert_eq!(status_text(202), "Accepted");
    assert_eq!(status_text(400), "Bad Request");
    assert_eq!(status_text(404), "Not Found");
    assert_eq!(status_text(500), "Internal Server Error");
    assert_eq!(status_text(502), "Bad Gateway");
    assert_eq!(status_text(503), "Service Unavailable");
    assert_eq!(status_text(418), "OK");
}

#[test]
fn error_payload_has_a_code_and_a_detail() {
    let payload = error_payload("invalid_proposal", "no \u{1F600}\n");
    assert_eq!(payload["error"], "invalid_proposal");
    assert_eq!(payload["detail"], "no \u{1F600}\n");
    assert_eq!(payload.as_object().unwrap().len(), 2);
}

#[test]
fn response_is_framed_exactly() {
    assert_eq!(
        frame_response(404, "{\"é\":1}"),
        "HTTP/1.1 404 Not Found\r\nContent-Type: application/json\r\nContent-Length: 8\r\nConnection: close\r\n\r\n{\"é\":1}"
    );
    assert_eq!(
        render_response(&error_response(503, "e", "d")),
        "HTTP/1.1 503 Service Unavailable\r\nContent-Type: application/json\r\nContent-Length: 26\r\nConnection: close\r\n\r\n{\"detail\":\"d\",\"error\":\"e\"}"
    );
}

#[test]
fn response_is_read_back() {
    let body = "{\"detail\":\"日本\\r\\n\\r\\n\"}";
    for status in [200, 202, 400, 404, 500, 502, 503, 0, 65535] {
        let bytes = frame_response(status, body).into_bytes();
        let end = find_header_end(&bytes).unwrap();
        assert_eq!(parse_content_length(&bytes[..end]), Ok(body.len()));
        assert_eq!(&bytes[end..], body.as_bytes());
    }
}

#[test]
fn reply_is_read_back_from_its_body() {
    let detail = "tab\t \"quote\" \\ / \u{0}\u{1f}\u{7f} \r\n\r\n é 日本 \u{1F600}";
    let response = error_response(400, "invalid_proposal", detail);
    let text = render_response(&response);
    let end = find_header_end(text.as_bytes()).unwrap();
    let body: serde_json::Value = serde_json::from_str(&text[end..]).unwrap();
    assert_eq!(body, response.payload);
    assert_eq!(body["detail"], detail);
}
