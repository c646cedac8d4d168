use proxy_core::tls_codec::{TlsCodec, TlsDecodeError};

/// Builds one TLS handshake record holding a minimal ClientHello whose
/// extension vector is given verbatim.
fn client_hello_record(extensions: &[u8]) -> Vec<u8> {
    let mut body = Vec::new();
    body.extend_from_slice(&[0x03, 0x03]); // legacy_version
    body.extend_from_slice(&[0u8; 32]); // random
    body.push(0); // session_id length
    body.extend_from_slice(&[0x00, 0x02, 0x13, 0x01]); // cipher_suites
    body.extend_from_slice(&[0x01, 0x00]); // compression_methods
    if !extensions.is_empty() {
        body.extend_from_slice(&(extensions.len() as u16).to_be_bytes());
        body.extend_from_slice(extensions);
    }
    let mut msg = vec![0x01]; // ClientHello
    msg.extend_from_slice(&(body.len() as u32).to_be_bytes()[1..]); // 24-bit length
    msg.extend_from_slice(&body);
    let mut record = vec![0x16, 0x03, 0x01]; // Handshake, TLS 1.0 record version
    record.extend_from_slice(&(msg.len() as u16).to_be_bytes());
    record.extend_from_slice(&msg);
    record
}

/// One server_name extension naming `host`.
fn sni_extension(host: &[u8]) -> Vec<u8> {
    let mut ext = Vec::new();
    ext.extend_from_slice(&[0x00, 0x00]); // extension type: server_name
    ext.extend_from_slice(&((host.len() + 5) as u16).to_be_bytes());
    ext.extend_from_slice(&((host.len() + 3) as u16).to_be_bytes()); // list length
    ext.push(0); // name type: host_name
    ext.extend_from_slice(&(host.len() as u16).to_be_bytes());
    ext.extend_from_slice(host);
    ext
}

fn decode_all(input: &[u8]) -> Result<Option<(String, Vec<u8>)>, TlsDecodeError> {
    let mut codec = TlsCodec::new();
    let mut buf = input.to_vec();
    codec.decode(&mut buf)
}

#[test]
fn sni_and_raw_record_come_back_verbatim() {
    let record = client_hello_record(&sni_extension(b"www.example.org"));
    let (sni, raw) = decode_all(&record).unwrap().unwrap();
    assert_eq!(sni, "www.example.org");
    assert_eq!(raw, record);
}

#[test]
fn sni_found_after_other_extensions() {
    let mut exts = vec![0x00, 0x0a, 0x00, 0x02, 0x00, 0x1d]; // another extension first
    exts.extend_from_slice(&sni_extension(b"a.example"));
    let record = client_hello_record(&exts);
    let (sni, raw) = decode_all(&record).unwrap().unwrap();
    assert_eq!(sni, "a.example");
    assert_eq!(raw, record);
}

#[test]
fn bytes_past_the_record_stay_buffered() {
    let record = client_hello_record(&sni_extension(b"b.example"));
    let mut input = record.clone();
    input.extend_from_slice(b"TAIL");
    let mut codec = TlsCodec::new();
    let mut buf = input;
    let (sni, raw) = codec.decode(&mut buf).unwrap().unwrap();
    assert_eq!(sni, "b.example");
    assert_eq!(raw, record);
    assert_eq!(buf, b"TAIL".to_vec());
}

#[test]
fn short_buffers_are_incomplete() {
    let record = client_hello_record(&sni_extension(b"c.example"));
    let mut codec = TlsCodec::new();
    let mut buf = record[..4].to_vec();
    assert!(matches!(codec.decode(&mut buf), Ok(None)));
    let mut buf = record[..record.len() - 1].to_vec();
    assert!(matches!(codec.decode(&mut buf), Ok(None)));
    assert_eq!(buf, record[..record.len() - 1].to_vec());
}

#[test]
fn wrong_content_type_fails() {
    let mut record = client_hello_record(&sni_extension(b"d.example"));
    record[0] = 0x17;
    assert_eq!(decode_all(&record), Err(TlsDecodeError::NotHandshake));
}

#[test]
fn non_client_hello_handshake_fails() {
    let mut record = client_hello_record(&sni_extension(b"e.example"));
    record[5] = 0x02; // ServerHello
    assert_eq!(decode_all(&record), Err(TlsDecodeError::NotClientHello));
}

#[test]
fn hello_without_extensions_has_no_sni() {
    let record = client_hello_record(&[]);
    assert_eq!(decode_all(&record), Err(TlsDecodeError::NoSni));
}

#[test]
fn hello_without_server_name_extension_has_no_sni() {
    let record = client_hello_record(&[0x00, 0x0a, 0x00, 0x02, 0x00, 0x1d]);
    assert_eq!(decode_all(&record), Err(TlsDecodeError::NoSni));
}

#[test]
fn non_utf8_server_name_has_no_sni() {
    let record = client_hello_record(&sni_extension(&[0xff, 0xfe, 0xfd]));
    assert_eq!(decode_all(&record), Err(TlsDecodeError::NoSni));
}

#[test]
fn empty_server_name_has_no_sni() {
    let record = client_hello_record(&sni_extension(b""));
    assert_eq!(decode_all(&record), Err(TlsDecodeError::NoSni));
}

#[test]
fn truncated_extension_vector_is_not_a_client_hello() {
    let mut exts = sni_extension(b"f.example");
    exts[3] = 0xff; // extension claims more data than the vector holds
    let record = client_hello_record(&exts);
    assert_eq!(decode_all(&record), Err(TlsDecodeError::NotClientHello));
}

#[test]
fn session_id_and_suites_are_skipped_correctly() {
    // Same ClientHello shape, but with a 32-byte session id and several suites.
    let mut body = Vec::new();
    body.extend_from_slice(&[0x03, 0x03]);
    body.extend_from_slice(&[7u8; 32]);
    body.push(32);
    body.extend_from_slice(&[9u8; 32]);
    body.extend_from_slice(&[0x00, 0x06, 0x13, 0x01, 0x13, 0x02, 0x13, 0x03]);
    body.extend_from_slice(&[0x02, 0x00, 0x01]);
    let exts = sni_extension(b"deep.example");
    body.extend_from_slice(&(exts.len() as u16).to_be_bytes());
    body.extend_from_slice(&exts);
    let mut msg = vec![0x01];
    msg.extend_from_slice(&(body.len() as u32).to_be_bytes()[1..]);
    msg.extend_from_slice(&body);
    let mut record = vec![0x16, 0x03, 0x03];
    record.extend_from_slice(&(msg.len() as u16).to_be_bytes());
    record.extend_from_slice(&msg);

    let (sni, raw) = decode_all(&record).unwrap().unwrap();
    assert_eq!(sni, "deep.example");
    assert_eq!(raw, record);
}

#[test]
fn record_assembled_across_reads() {
    let record = client_hello_record(&sni_extension(b"g.example"));
    let mut codec = TlsCodec::new();
    let mut buf = record[..7].to_vec();
    assert!(matches!(codec.decode(&mut buf), Ok(None)));
    assert_eq!(buf, record[..7].to_vec());
    buf.extend_from_slice(&record[7..]);
    let (sni, raw) = codec.decode(&mut buf).unwrap().unwrap();
    assert_eq!(sni, "g.example");
    assert_eq!(raw, record);
    assert!(buf.is_empty());
}
