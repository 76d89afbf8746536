use authpool::framer::{assemble, is_blank_line, parse_head, request_body_len};
use authpool::response::{body_response, echo_body, empty_response, BAD_REQUEST, OK};

fn lines(raw: &[&str]) -> Vec<Vec<u8>> {
    raw.iter().map(|s| s.as_bytes().to_vec()).collect()
}

#[test]
fn blank_line_ends_headers() {
    assert!(is_blank_line(b"\r\n"));
    assert!(is_blank_line(b"\n"));
    assert!(!is_blank_line(b" \r\n"));
    assert!(!is_blank_line(b""));
}

#[test]
fn parse_head_reads_request_line_and_headers() {
    let head = parse_head(&lines(&[
        "POST /upsert HTTP/1.1\r\n",
        "Host: localhost\r\n",
        "Content-Length: 9\r\n",
    ]))
    .unwrap();
    assert_eq!(head.method, b"POST".to_vec());
    assert_eq!(head.path, b"/upsert".to_vec());
    assert_eq!(head.version, b"HTTP/1.1".to_vec());
    assert_eq!(head.content_length, 9);
    assert_eq!(head.headers[1], b"Host: localhost".to_vec());
}

#[test]
fn parse_head_rejects_short_request_line() {
    assert!(parse_head(&lines(&["GET /\r\n"])).is_none());
    assert!(parse_head(&lines(&[])).is_none());
}

#[test]
fn content_length_defaults_to_zero_on_junk() {
    let head = parse_head(&lines(&[
        "POST /dump HTTP/1.1\r\n",
        "Content-Length: many\r\n",
    ]))
    .unwrap();
    assert_eq!(head.content_length, 0);
}

#[test]
fn last_content_length_wins() {
    let head = parse_head(&lines(&[
        "POST /dump HTTP/1.1\r\n",
        "Content-Length: 3\r\n",
        "Content-Length: 7\r\n",
    ]))
    .unwrap();
    assert_eq!(head.content_length, 7);
}

#[test]
fn declared_five_bytes_parse_as_five() {
    // A declared Content-Length of 5 with exactly 5 body bytes yields a
    // body of length exactly 5, whatever the bytes hold.
    let head = parse_head(&lines(&[
        "POST /dump HTTP/1.1\r\n",
        "Content-Length: 5\r\n",
    ]))
    .unwrap();
    assert_eq!(request_body_len(&head), 5);
    let req = assemble(head, b"\x00abc\xff".to_vec()).unwrap();
    assert_eq!(req.body.len(), 5);
    assert_eq!(req.body, b"\x00abc\xff".to_vec());
}

#[test]
fn short_body_does_not_assemble() {
    let head = parse_head(&lines(&[
        "POST /dump HTTP/1.1\r\n",
        "Content-Length: 5\r\n",
    ]))
    .unwrap();
    assert!(assemble(head, b"abc".to_vec()).is_none());
}

#[test]
fn get_carries_no_body() {
    let head = parse_head(&lines(&["GET / HTTP/1.1\r\n", "Content-Length: 5\r\n"])).unwrap();
    assert_eq!(request_body_len(&head), 0);
    assert!(assemble(head, Vec::new()).is_some());
}

#[test]
fn responses_carry_length_and_body() {
    assert_eq!(
        empty_response(OK),
        b"HTTP/1.1 200 OK\r\nContent-Length: 0\r\n\r\n".to_vec()
    );
    assert_eq!(
        body_response(BAD_REQUEST, b"oops"),
        b"HTTP/1.1 400 Bad Request\r\nContent-Length: 4\r\n\r\noops".to_vec()
    );
    assert_eq!(
        echo_body(b"hello"),
        b"HTTP/1.1 200 OK\r\nContent-Length: 5\r\n\r\nhello".to_vec()
    );
}
