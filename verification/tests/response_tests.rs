use rust_wget::common::HttpVersion;
use rust_wget::error::WgetError;
use rust_wget::response::{HttpResponse, ReadAction, ResponseParser};
use rust_wget::status::HttpStatusCode;

/// Drives the parser over an in-memory transport, reading lines and byte
/// runs exactly as it asks, and reports how many bytes were consumed.
fn receive(bytes: &[u8]) -> Result<(HttpResponse, usize), WgetError> {
    let mut parser = ResponseParser::new();
    let mut pos: usize = 0;
    loop {
        match parser.next_action() {
            ReadAction::ReadLine => {
                let start = pos;
                while pos < bytes.len() && bytes[pos] != b'\n' {
                    pos += 1;
                }
                if pos < bytes.len() {
                    pos += 1;
                }
                let line = String::from_utf8(bytes[start..pos].to_vec()).unwrap();
                parser.feed_line(&line)?;
            }
            ReadAction::ReadBytes(n) => {
                let chunk = bytes[pos..pos + n].to_vec();
                pos += n;
                parser.feed_bytes(chunk)?;
            }
            ReadAction::Finished => {
                return Ok((parser.take_response(), pos));
            }
        }
    }
}

#[test]
fn response_can_construct_http_response() {
    let _ = HttpResponse::new(HttpVersion::Version0_9, HttpStatusCode::OK, "Ok".to_string());
}

#[test]
fn response_can_add_headers() {
    let mut resp = HttpResponse::new(HttpVersion::Version1_1, HttpStatusCode::OK, "Ok".to_string());
    resp.add_header("my header".to_string(), "my value".to_string());
    resp.add_header("my header 2".to_string(), "my value 2".to_string());
    assert_eq!(resp.get_header("my header"), Some("my value".to_string()));
    assert_eq!(resp.get_header("my header 2"), Some("my value 2".to_string()));
    assert_eq!(resp.get_header("non existant"), None);
}

#[test]
fn response_can_delete_headers() {
    let mut resp = HttpResponse::new(HttpVersion::Version1_1, HttpStatusCode::OK, "Ok".to_string());
    resp.add_header("my header".to_string(), "my value".to_string());
    resp.add_header("my header 2".to_string(), "my value 2".to_string());
    assert_eq!(resp.get_header("my header"), Some("my value".to_string()));
    assert_eq!(resp.get_header("my header 2"), Some("my value 2".to_string()));
    assert_eq!(resp.get_header("non existant"), None);

    assert_eq!(resp.delete_header("my header 2"), Some("my value 2".to_string()));
    assert_eq!(resp.get_header("my header 2"), None);
    assert_eq!(resp.delete_header("my header 2"), None);
    assert_eq!(resp.delete_header("non existant"), None);
}

#[test]
fn response_can_construct_http_response_with_version() {
    let _ = HttpResponse::new(HttpVersion::Version0_9, HttpStatusCode::OK, "Ok".to_string());
    let _ = HttpResponse::new(HttpVersion::Version1_0, HttpStatusCode::OK, "Ok".to_string());
    let _ = HttpResponse::new(HttpVersion::Version1_1, HttpStatusCode::OK, "Ok".to_string());
    let _ = HttpResponse::new(HttpVersion::Version2_0, HttpStatusCode::OK, "Ok".to_string());
}

#[test]
fn response_can_construct_http_response_with_status() {
    let _ = HttpResponse::new(HttpVersion::Version0_9, HttpStatusCode::OK, "Ok".to_string());
    let _ = HttpResponse::new(
        HttpVersion::Version1_0,
        HttpStatusCode::MovedPermanently,
        "Ok".to_string(),
    );
}

#[test]
fn response_can_read_response() {
    let sample_response =
        "HTTP/1.1 200 Ok\r\nmy header: my value\r\nmy header 2: my value 2\r\nContent-Length: 5\r\n\r\nabcde";

    let (response, _) =
        receive(sample_response.as_bytes()).expect("Could not read response!");

    assert_eq!(response.version, HttpVersion::Version1_1);
    assert_eq!(response.status_code, HttpStatusCode::OK);
    assert_eq!(response.status_message, "Ok");
    assert_eq!(response.get_data().as_slice(), "abcde".as_bytes());
    assert_eq!(response.get_header("my header"), Some("my value".to_string()));
    assert_eq!(response.get_header("my header 2"), Some("my value 2".to_string()));
    assert_eq!(response.get_header("Content-Length"), Some("5".to_string()));
    assert_eq!(response.get_header("not a key"), None);
}

#[test]
fn response_headers_are_case_insensitive() {
    let mut res = HttpResponse::new(HttpVersion::Version1_1, HttpStatusCode::OK, "Ok".to_string());
    res.add_header("My Header".to_string(), "My Value".to_string());
    let value = res.get_header("my header").expect("Couldn't get value");
    assert_eq!(value, "My Value");
}

#[test]
fn content_length_body_consumes_exactly_its_bytes() {
    // Five body bytes, then unrelated trailing bytes the parser must not touch.
    let wire = b"HTTP/1.1 200 Ok\r\nContent-Length: 5\r\n\r\nabcdeEXTRA";
    let (response, consumed) = receive(wire).expect("Could not read response!");
    assert_eq!(response.get_data().as_slice(), b"abcde");
    assert_eq!(consumed, wire.len() - "EXTRA".len());
}

#[test]
fn content_length_zero_gives_empty_body() {
    let wire = b"HTTP/1.1 204 No Content\r\nContent-Length: 0\r\n\r\n";
    let (response, consumed) = receive(wire).expect("Could not read response!");
    assert_eq!(response.status_code, HttpStatusCode::NoContent);
    assert_eq!(response.get_data().len(), 0);
    assert_eq!(consumed, wire.len());
}

#[test]
fn missing_framing_headers_give_empty_body() {
    let wire = b"HTTP/1.1 200 Ok\r\nServer: x\r\n\r\n";
    let (response, consumed) = receive(wire).expect("Could not read response!");
    assert_eq!(response.get_data().len(), 0);
    assert_eq!(consumed, wire.len());
}

#[test]
fn chunked_body_reassembles_in_order() {
    let wire = b"HTTP/1.1 200 Ok\r\nTransfer-Encoding: chunked\r\n\r\n5\r\nhello\r\n1\r\n \r\n5\r\nworld\r\n0\r\n";
    let (response, consumed) = receive(wire).expect("Could not read response!");
    assert_eq!(response.get_data().as_slice(), b"hello world");
    assert_eq!(consumed, wire.len());
}

#[test]
fn chunked_body_equals_content_length_body() {
    // The same eleven bytes, framed both ways, give the same body.
    let chunked =
        b"HTTP/1.1 200 Ok\r\nTransfer-Encoding: chunked\r\n\r\n5\r\nhello\r\n1\r\n \r\n5\r\nworld\r\n0\r\n";
    let plain = b"HTTP/1.1 200 Ok\r\nContent-Length: 11\r\n\r\nhello world";
    let (from_chunked, _) = receive(chunked).expect("Could not read response!");
    let (from_plain, _) = receive(plain).expect("Could not read response!");
    assert_eq!(from_chunked.get_data(), from_plain.get_data());
}

#[test]
fn chunk_sizes_are_hexadecimal() {
    let payload = "abcdefghijklmnopqrstuvwxyz";  // 26 = 0x1a bytes
    let wire = format!(
        "HTTP/1.1 200 Ok\r\nTransfer-Encoding: chunked\r\n\r\n1a\r\n{payload}\r\n0\r\n"
    );
    let (response, _) = receive(wire.as_bytes()).expect("Could not read response!");
    assert_eq!(response.get_data().as_slice(), payload.as_bytes());
}

#[test]
fn invalid_chunk_terminator_is_fatal() {
    let wire = b"HTTP/1.1 200 Ok\r\nTransfer-Encoding: chunked\r\n\r\n5\r\nhelloXX0\r\n";
    assert!(matches!(receive(wire), Err(WgetError::ParsingError(_))));
}

#[test]
fn invalid_chunk_size_is_error() {
    let wire = b"HTTP/1.1 200 Ok\r\nTransfer-Encoding: chunked\r\n\r\nzz\r\n";
    assert!(matches!(receive(wire), Err(WgetError::ParsingError(_))));
}

#[test]
fn transfer_encoding_value_compare_is_exact() {
    // The chunked marker is compared as the exact literal "chunked"; any
    // other spelling leaves the body empty.
    let wire = b"HTTP/1.1 200 Ok\r\nTransfer-Encoding: CHUNKED\r\n\r\n";
    let (response, consumed) = receive(wire).expect("Could not read response!");
    assert_eq!(response.get_data().len(), 0);
    assert_eq!(consumed, wire.len());
}

#[test]
fn invalid_content_length_is_error() {
    let wire = b"HTTP/1.1 200 Ok\r\nContent-Length: five\r\n\r\n";
    assert!(matches!(receive(wire), Err(WgetError::ParsingError(_))));
}

#[test]
fn unknown_version_token_is_error() {
    let wire = b"SPDY/1 200 Ok\r\n\r\n";
    assert!(matches!(receive(wire), Err(WgetError::ParsingError(_))));
}

#[test]
fn missing_status_code_is_error() {
    let wire = b"HTTP/1.1\r\n\r\n";
    assert!(matches!(receive(wire), Err(WgetError::ParsingError(_))));
}

#[test]
fn out_of_range_status_code_is_error() {
    let wire = b"HTTP/1.1 999 Strange\r\n\r\n";
    assert!(matches!(receive(wire), Err(WgetError::InvalidStatusCode(999))));
}

#[test]
fn malformed_header_line_is_error() {
    let wire = b"HTTP/1.1 200 Ok\r\nNoSeparatorHere\r\n\r\n";
    assert!(matches!(receive(wire), Err(WgetError::ParsingError(_))));
}

#[test]
fn header_value_splits_at_first_separator() {
    let wire = b"HTTP/1.1 200 Ok\r\nX-Note: a: b: c\r\nContent-Length: 0\r\n\r\n";
    let (response, _) = receive(wire).expect("Could not read response!");
    assert_eq!(response.get_header("X-Note"), Some("a: b: c".to_string()));
}

#[test]
fn status_message_keeps_all_remaining_words() {
    let wire = b"HTTP/1.1 404 Not Found At All\r\n\r\n";
    let (response, _) = receive(wire).expect("Could not read response!");
    assert_eq!(response.status_code, HttpStatusCode::NotFound);
    assert_eq!(response.status_message, "Not Found At All");
}

#[test]
fn serializes_response_head_and_body() {
    let mut resp = HttpResponse::new(HttpVersion::Version1_1, HttpStatusCode::OK, "Ok".to_string());
    resp.add_header("Content-Length".to_string(), "5".to_string());
    resp.set_data(b"abcde".to_vec());
    assert_eq!(
        resp.serialize(),
        b"HTTP/1.1 200 Ok\r\nContent-Length: 5\r\n\r\nabcde".to_vec()
    );
}

#[test]
fn bare_lf_line_endings_are_tolerated() {
    let wire = b"HTTP/1.1 200 Ok\nContent-Length: 2\n\nhi";
    let (response, _) = receive(wire).expect("Could not read response!");
    assert_eq!(response.get_data().as_slice(), b"hi");
}
