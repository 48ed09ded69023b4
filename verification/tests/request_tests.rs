use rust_wget::common::HttpVersion;
use rust_wget::request::{build_get_request, HttpMethod, HttpRequest};

#[test]
fn creates_standard_request() {
    let _ = HttpRequest::new(HttpMethod::Get, "/".to_string(), HttpVersion::Version1_1);
}

#[test]
fn create_requests_for_any_method() {
    let _ = HttpRequest::new(HttpMethod::Get, "/".to_string(), HttpVersion::Version1_1);
    let _ = HttpRequest::new(HttpMethod::Head, "/".to_string(), HttpVersion::Version1_1);
    let _ = HttpRequest::new(HttpMethod::Post, "/".to_string(), HttpVersion::Version1_1);
    let _ = HttpRequest::new(HttpMethod::Put, "/".to_string(), HttpVersion::Version1_1);
    let _ = HttpRequest::new(HttpMethod::Delete, "/".to_string(), HttpVersion::Version1_1);
    let _ = HttpRequest::new(HttpMethod::Connect, "/".to_string(), HttpVersion::Version1_1);
    let _ = HttpRequest::new(HttpMethod::Options, "/".to_string(), HttpVersion::Version1_1);
    let _ = HttpRequest::new(HttpMethod::Trace, "/".to_string(), HttpVersion::Version1_1);
    let _ = HttpRequest::new(HttpMethod::Patch, "/".to_string(), HttpVersion::Version1_1);
}

#[test]
fn create_requests_for_any_version() {
    let _ = HttpRequest::new(HttpMethod::Get, "/".to_string(), HttpVersion::Version0_9);
    let _ = HttpRequest::new(HttpMethod::Get, "/".to_string(), HttpVersion::Version1_0);
    let _ = HttpRequest::new(HttpMethod::Get, "/".to_string(), HttpVersion::Version1_1);
    let _ = HttpRequest::new(HttpMethod::Get, "/".to_string(), HttpVersion::Version2_0);
}

#[test]
fn request_can_add_headers() {
    let mut req = HttpRequest::new(HttpMethod::Get, "/".to_string(), HttpVersion::Version1_1);
    req.add_header("my header".to_string(), "my value".to_string());
    req.add_header("my header 2".to_string(), "my value 2".to_string());
    assert_eq!(req.get_header("my header"), Some("my value".to_string()));
    assert_eq!(req.get_header("my header 2"), Some("my value 2".to_string()));
    assert_eq!(req.get_header("non existant"), None);
}

#[test]
fn request_can_delete_headers() {
    let mut req = HttpRequest::new(HttpMethod::Get, "/".to_string(), HttpVersion::Version1_1);
    req.add_header("my header".to_string(), "my value".to_string());
    req.add_header("my header 2".to_string(), "my value 2".to_string());
    assert_eq!(req.get_header("my header"), Some("my value".to_string()));
    assert_eq!(req.get_header("my header 2"), Some("my value 2".to_string()));
    assert_eq!(req.get_header("non existant"), None);

    assert_eq!(req.delete_header("my header 2"), Some("my value 2".to_string()));
    assert_eq!(req.get_header("my header 2"), None);
    assert_eq!(req.delete_header("my header 2"), None);
    assert_eq!(req.delete_header("non existant"), None);
}

#[test]
fn serializes_request() {
    let mut req = HttpRequest::new(
        HttpMethod::Get,
        "/my_path.html".to_string(),
        HttpVersion::Version1_1,
    );
    req.add_header("my header".to_string(), "my value".to_string());
    req.add_header("my header 2".to_string(), "my value 2".to_string());

    let req_serialized = req.wire_string();

    assert_eq!(
        req_serialized,
        "GET /my_path.html HTTP/1.1\r\nmy header: my value\r\nmy header 2: my value 2\r\n\r\n"
    );
    assert_eq!(req.serialize(), req_serialized.as_bytes().to_vec());
}

#[test]
fn request_headers_are_case_insensitive() {
    let mut req = HttpRequest::new(
        HttpMethod::Get,
        "/index.html".to_string(),
        HttpVersion::Version1_1,
    );
    req.add_header("My Header".to_string(), "My Value".to_string());
    let value = req.get_header("my header").expect("Couldn't get value");
    assert_eq!(value, "My Value");
}

/// Splits a wire message with the codec's line rules: lines end at '\n'
/// with one trailing '\r' stripped; the request line splits on single
/// spaces; each header line splits at the first ": ".
fn reparse(wire: &str) -> (String, String, String, Vec<(String, String)>) {
    let mut lines = wire.split('\n').map(|l| l.strip_suffix('\r').unwrap_or(l));
    let request_line = lines.next().unwrap();
    let mut parts = request_line.splitn(3, ' ');
    let method = parts.next().unwrap().to_string();
    let path = parts.next().unwrap().to_string();
    let version = parts.next().unwrap().to_string();
    let mut headers = Vec::new();
    for line in lines {
        if line.is_empty() {
            break;
        }
        let sep = line.find(": ").unwrap();
        headers.push((line[..sep].to_string(), line[sep + 2..].to_string()));
    }
    (method, path, version, headers)
}

#[test]
fn serialized_request_reparses_to_same_parts() {
    let mut req = HttpRequest::new(
        HttpMethod::Get,
        "/my_path.html".to_string(),
        HttpVersion::Version1_1,
    );
    req.add_header("Host".to_string(), "test".to_string());
    req.add_header("Accept".to_string(), "*/*".to_string());

    let (method, path, version, headers) = reparse(&req.wire_string());
    assert_eq!(method, "GET");
    assert_eq!(path, "/my_path.html");
    assert_eq!(version, "HTTP/1.1");
    assert_eq!(
        headers,
        vec![
            ("Host".to_string(), "test".to_string()),
            ("Accept".to_string(), "*/*".to_string()),
        ]
    );
}

#[test]
fn standard_get_request_has_fixed_headers() {
    let req = build_get_request("localhost", "/");
    assert_eq!(req.get_header("Host"), Some("localhost".to_string()));
    assert_eq!(req.get_header("User-Agent"), Some("Wget/1.21.3".to_string()));
    assert_eq!(req.get_header("Accept"), Some("*/*".to_string()));
    assert_eq!(req.get_header("Accept-Encoding"), Some("identity".to_string()));
    assert_eq!(req.get_header("Connection"), Some("Keep-Alive".to_string()));
    assert_eq!(
        req.wire_string(),
        "GET / HTTP/1.1\r\nHost: localhost\r\nUser-Agent: Wget/1.21.3\r\nAccept: */*\r\nAccept-Encoding: identity\r\nConnection: Keep-Alive\r\n\r\n"
    );
}
