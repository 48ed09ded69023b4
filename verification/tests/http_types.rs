use rust_wget::common::HttpVersion;
use rust_wget::error::WgetError;
use rust_wget::protocol::Protocol;
use rust_wget::request::HttpMethod;
use rust_wget::status::{HttpStatusCode, HttpStatusFamily};

#[test]
fn serializes_http_method() {
    assert_eq!(HttpMethod::Get.as_str(), "GET");
    assert_eq!(HttpMethod::Head.as_str(), "HEAD");
    assert_eq!(HttpMethod::Post.as_str(), "POST");
    assert_eq!(HttpMethod::Put.as_str(), "PUT");
    assert_eq!(HttpMethod::Delete.as_str(), "DELETE");
    assert_eq!(HttpMethod::Connect.as_str(), "CONNECT");
    assert_eq!(HttpMethod::Options.as_str(), "OPTIONS");
    assert_eq!(HttpMethod::Trace.as_str(), "TRACE");
    assert_eq!(HttpMethod::Patch.as_str(), "PATCH");
}

#[test]
fn parses_http_version() {
    assert!(matches!(HttpVersion::from_str("HTTP/0.9"), Ok(HttpVersion::Version0_9)));
    assert!(matches!(HttpVersion::from_str("HTTP/1.0"), Ok(HttpVersion::Version1_0)));
    assert!(matches!(HttpVersion::from_str("HTTP/1.1"), Ok(HttpVersion::Version1_1)));
    assert!(matches!(HttpVersion::from_str("HTTP/2"), Ok(HttpVersion::Version2_0)));
    assert!(matches!(
        HttpVersion::from_str("not a version"),
        Err(WgetError::ParsingError(_))
    ));
}

#[test]
fn version_to_string() {
    assert_eq!(HttpVersion::Version0_9.as_str(), "HTTP/0.9");
    assert_eq!(HttpVersion::Version1_0.as_str(), "HTTP/1.0");
    assert_eq!(HttpVersion::Version1_1.as_str(), "HTTP/1.1");
    assert_eq!(HttpVersion::Version2_0.as_str(), "HTTP/2");
}

#[test]
fn response_can_parse_http_status() {
    assert!(matches!(HttpStatusCode::from_str("200"), Ok(HttpStatusCode::OK)));
    assert!(matches!(
        HttpStatusCode::from_str("301"),
        Ok(HttpStatusCode::MovedPermanently)
    ));
    assert!(matches!(
        HttpStatusCode::from_str("Not a status"),
        Err(WgetError::ParsingError(_))
    ));
}

#[test]
fn response_can_display_http_status() {
    assert_eq!(HttpStatusCode::OK.code_string(), "200");
    assert_eq!(HttpStatusCode::MovedPermanently.code_string(), "301");
}

#[test]
fn can_determine_status_family() {
    assert_eq!(HttpStatusCode::Continue.family(), HttpStatusFamily::Informational);
    assert_eq!(
        HttpStatusCode::SwitchingProtocols.family(),
        HttpStatusFamily::Informational
    );
    assert_eq!(HttpStatusCode::OK.family(), HttpStatusFamily::Successful);
    assert_eq!(HttpStatusCode::Accepted.family(), HttpStatusFamily::Successful);
    assert_eq!(
        HttpStatusCode::MovedPermanently.family(),
        HttpStatusFamily::Redirection
    );
    assert_eq!(HttpStatusCode::NotModified.family(), HttpStatusFamily::Redirection);
    assert_eq!(
        HttpStatusCode::MethodNotAllowed.family(),
        HttpStatusFamily::ClientError
    );
    assert_eq!(HttpStatusCode::ImATeapot.family(), HttpStatusFamily::ClientError);
    assert_eq!(
        HttpStatusCode::NotImplemented.family(),
        HttpStatusFamily::ServerError
    );
    assert_eq!(
        HttpStatusCode::NetworkAuthenticationRequired.family(),
        HttpStatusFamily::ServerError
    );
}

#[test]
fn status_418_is_client_error_101_informational_200_successful() {
    assert_eq!(HttpStatusCode::ImATeapot.code(), 418);
    assert_eq!(HttpStatusCode::ImATeapot.family(), HttpStatusFamily::ClientError);
    assert_eq!(HttpStatusCode::SwitchingProtocols.code(), 101);
    assert_eq!(
        HttpStatusCode::SwitchingProtocols.family(),
        HttpStatusFamily::Informational
    );
    assert_eq!(HttpStatusCode::OK.code(), 200);
    assert_eq!(HttpStatusCode::OK.family(), HttpStatusFamily::Successful);
}

#[test]
fn unknown_status_code_reports_value() {
    assert!(matches!(
        HttpStatusCode::from_str("599"),
        Err(WgetError::InvalidStatusCode(599))
    ));
    assert!(matches!(
        HttpStatusCode::try_from(199),
        Err(WgetError::InvalidStatusCode(199))
    ));
    assert!(matches!(HttpStatusCode::try_from(418), Ok(HttpStatusCode::ImATeapot)));
}

#[test]
fn common_gets_default_port_for_protocol() {
    assert_eq!(Protocol::Http.get_port(), 80);
}

#[test]
fn protocol_gets_default_port_for_protocol() {
    assert_eq!(Protocol::Http.get_port(), 80);
    assert_eq!(Protocol::Https.get_port(), 443);
    assert_eq!(Protocol::Ftp.get_port(), 21);
}

#[test]
fn parses_protocol_from_str() {
    assert!(matches!(Protocol::from_str("http:"), Ok(Protocol::Http)));
    assert!(matches!(Protocol::from_str("https:"), Ok(Protocol::Https)));
    assert!(matches!(Protocol::from_str("ftp:"), Ok(Protocol::Ftp)));
    assert!(matches!(
        Protocol::from_str("not a protocol"),
        Err(WgetError::ParsingError(_))
    ));
}
