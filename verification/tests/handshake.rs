use proxy_core::handshake_codec::{
    extract_host_and_port, DecodeError, HandshakeCodec, MAX_HEADER_SIZE,
};

fn decode_all(input: &[u8]) -> Result<Option<proxy_core::handshake_codec::DecodeResult>, DecodeError> {
    let mut codec = HandshakeCodec::new();
    let mut buf = input.to_vec();
    codec.decode(&mut buf)
}

#[test]
fn test_parse() {
    let req_data = "POST / HTTP/1.1\r\nHost: localhost:8888\r\nContent-Length: 17\r\n\r\n123";
    println!("req_data: {:?}", req_data.len());
    let mut codec = HandshakeCodec::new();
    let mut buf = req_data.as_bytes().to_vec();
    let req = codec.decode(&mut buf);
    println!("req: {:?}", req);
}

#[test]
#[allow(unused_variables)]
fn test_parse_host_port() {
    let req_line = "CONNECT edulyse.test.sewo.com:80 HTTP/1.1";
}

#[test]
fn post_head_with_body_bytes() {
    let head = "POST / HTTP/1.1\r\nHost: localhost:8888\r\nContent-Length: 17\r\n\r\n";
    let input = format!("{}123", head);
    let d = decode_all(input.as_bytes()).unwrap().unwrap();
    assert!(!d.is_connect);
    assert_eq!(d.method, "POST");
    assert_eq!(d.host, "localhost");
    assert_eq!(d.port, 8888);
    assert_eq!(d.header_len, head.len());
    assert_eq!(d.req_body_bytes, b"123".to_vec());
}

#[test]
fn get_head_empty_body() {
    let input = b"GET / HTTP/1.1\r\nHost: example.com\r\n\r\n";
    let d = decode_all(input).unwrap().unwrap();
    assert!(!d.is_connect);
    assert_eq!(d.method, "GET");
    assert_eq!(d.host, "example.com");
    assert_eq!(d.port, 80);
    assert_eq!(d.header_len, input.len());
    assert!(d.req_body_bytes.is_empty());
}

#[test]
fn incremental_feeding_keeps_buffer() {
    let mut codec = HandshakeCodec::new();
    let mut buf = b"GET / HT".to_vec();
    assert!(matches!(codec.decode(&mut buf), Ok(None)));
    assert_eq!(buf, b"GET / HT".to_vec());
    buf.extend_from_slice(b"TP/1.1\r\nHost: a.example\r\n\r\nXY");
    let d = codec.decode(&mut buf).unwrap().unwrap();
    assert_eq!(d.host, "a.example");
    assert_eq!(d.req_body_bytes, b"XY".to_vec());
    assert!(buf.is_empty());
}

#[test]
fn connect_head_uses_request_target() {
    let input = b"CONNECT example.com:443 HTTP/1.1\r\nHost: example.com:443\r\n\r\n";
    let mut tail = input.to_vec();
    let body: Vec<u8> = (1u8..=17).collect();
    tail.extend_from_slice(&body);
    let d = decode_all(&tail).unwrap().unwrap();
    assert!(d.is_connect);
    assert_eq!(d.host, "example.com");
    assert_eq!(d.port, 443);
    assert_eq!(d.header_len, input.len());
    assert_eq!(d.req_body_bytes, body);
}

#[test]
fn connect_is_case_insensitive_and_needs_no_host_header() {
    let input = b"connect example.com:8443 HTTP/1.1\r\n\r\n";
    let d = decode_all(input).unwrap().unwrap();
    assert!(d.is_connect);
    assert_eq!(d.host, "example.com");
    assert_eq!(d.port, 8443);
}

#[test]
fn missing_host_fails() {
    let input = b"GET / HTTP/1.1\r\nAccept: */*\r\n\r\n";
    assert_eq!(decode_all(input), Err(DecodeError::MissingHost));
}

#[test]
fn empty_port_after_colon_fails_bad_port() {
    let input = b"GET / HTTP/1.1\r\nHost: https-foo.example:\r\n\r\n";
    assert_eq!(decode_all(input), Err(DecodeError::BadPort));
}

#[test]
fn https_prefixed_host_defaults_to_443() {
    let input = b"GET / HTTP/1.1\r\nHost: https-foo.example\r\n\r\n";
    let d = decode_all(input).unwrap().unwrap();
    assert_eq!(d.host, "https-foo.example");
    assert_eq!(d.port, 443);
}

#[test]
fn non_utf8_host_header_is_skipped() {
    let mut input = b"GET / HTTP/1.1\r\nHost: ".to_vec();
    input.extend_from_slice(&[0xff, 0xfe]);
    input.extend_from_slice(b"\r\nhOSt: b.example:81\r\n\r\n");
    let d = decode_all(&input).unwrap().unwrap();
    assert_eq!(d.host, "b.example");
    assert_eq!(d.port, 81);
}

#[test]
fn garbage_head_fails_bad_message() {
    assert_eq!(decode_all(b"XYZ\r\n\r\n"), Err(DecodeError::BadMessage));
    assert_eq!(decode_all(b"GET /index HTTP/2.0\r\nHost: a\r\n\r\n"), Err(DecodeError::BadMessage));
}

#[test]
fn boundary_header_sizes() {
    // A complete head of exactly the maximum size is accepted.
    let frame = "GET / HTTP/1.1\r\nHost: example.com\r\nX-Pad: \r\n\r\n";
    let pad = MAX_HEADER_SIZE - frame.len();
    let input = format!(
        "GET / HTTP/1.1\r\nHost: example.com\r\nX-Pad: {}\r\n\r\n",
        "a".repeat(pad)
    );
    assert_eq!(input.len(), MAX_HEADER_SIZE);
    let d = decode_all(input.as_bytes()).unwrap().unwrap();
    assert_eq!(d.header_len, MAX_HEADER_SIZE);
    assert_eq!(d.host, "example.com");

    // One byte below the cap and still incomplete: keep reading.
    let mut incomplete = vec![b'a'; MAX_HEADER_SIZE - 1];
    incomplete[0] = b'G';
    let mut codec = HandshakeCodec::new();
    let mut buf = incomplete.clone();
    assert!(matches!(codec.decode(&mut buf), Ok(None)));

    // At 1,048,576 bytes and still incomplete: the head is too large.
    let too_large = vec![b'a'; MAX_HEADER_SIZE + 1];
    assert_eq!(decode_all(&too_large), Err(DecodeError::HeaderTooLarge));
}

#[test]
fn extract_host_and_port_forms() {
    assert_eq!(extract_host_and_port("example.com").unwrap(), ("example.com".to_string(), 80));
    assert_eq!(extract_host_and_port("example.com:8080").unwrap(), ("example.com".to_string(), 8080));
    assert_eq!(extract_host_and_port("https.example").unwrap(), ("https.example".to_string(), 443));
    assert_eq!(extract_host_and_port("example.com:"), Err(DecodeError::BadPort));
    assert_eq!(extract_host_and_port("example.com:99999"), Err(DecodeError::BadPort));
    assert_eq!(extract_host_and_port("example.com:80x"), Err(DecodeError::BadPort));
    assert_eq!(extract_host_and_port("h:80:junk").unwrap(), ("h".to_string(), 80));
}

#[test]
fn header_line_without_colon_fails() {
    assert_eq!(
        decode_all(b"GET / HTTP/1.1\r\nNoColonHere\r\nHost: a.example\r\n\r\n"),
        Err(DecodeError::BadMessage)
    );
}

#[test]
fn header_line_with_empty_name_fails() {
    assert_eq!(
        decode_all(b"GET / HTTP/1.1\r\n: value\r\nHost: a.example\r\n\r\n"),
        Err(DecodeError::BadMessage)
    );
}

#[test]
fn host_value_is_trimmed() {
    let input = b"GET / HTTP/1.1\r\nHost: \t example.com:8080 \t \r\n\r\n";
    let d = decode_all(input).unwrap().unwrap();
    assert_eq!(d.host, "example.com");
    assert_eq!(d.port, 8080);
}

#[test]
fn connect_target_with_bad_port_fails() {
    assert_eq!(
        decode_all(b"CONNECT example.com:badport HTTP/1.1\r\n\r\n"),
        Err(DecodeError::BadPort)
    );
}

#[test]
fn first_host_header_wins() {
    let input = b"GET / HTTP/1.1\r\nHost: first.example:81\r\nHost: second.example:82\r\n\r\n";
    let d = decode_all(input).unwrap().unwrap();
    assert_eq!(d.host, "first.example");
    assert_eq!(d.port, 81);
}
