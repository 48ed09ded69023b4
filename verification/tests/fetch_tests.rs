use rust_wget::cache::ConnectionCache;
use rust_wget::common::HttpVersion;
use rust_wget::fetch::{FetchSession, FetchState};
use rust_wget::response::HttpResponse;
use rust_wget::status::HttpStatusCode;
use rust_wget::url::ParsedUrl;

#[test]
fn fetch_redirects_to_location() {
    // "HTTP/1.1 301 Moved\r\nLocation: http://x/y\r\n\r\n": the loop must
    // re-target at the Location URL and keep fetching, not terminate.
    let mut session = FetchSession::new("http://start/".to_string());
    let mut response = HttpResponse::new(
        HttpVersion::Version1_1,
        HttpStatusCode::MovedPermanently,
        "Moved".to_string(),
    );
    response.add_header("Location".to_string(), "http://x/y".to_string());

    let deliver = session.on_response(&response);
    assert!(!deliver);
    assert!(session.is_fetching());
    assert_eq!(session.current_url(), "http://x/y");

    // The next hop issues a new request against the new target.
    let parsed = ParsedUrl::parse(&session.current_url()).expect("Couldn't parse!");
    assert!(session.on_parsed(&parsed));
    assert_eq!(parsed.domain_name, "x");
    assert_eq!(parsed.path, "/y");
}

#[test]
fn successful_response_delivers_and_finishes() {
    let mut session = FetchSession::new("http://test/".to_string());
    let response =
        HttpResponse::new(HttpVersion::Version1_1, HttpStatusCode::OK, "Ok".to_string());
    let deliver = session.on_response(&response);
    assert!(deliver);
    assert_eq!(session.state, FetchState::Done);
}

#[test]
fn redirect_without_location_fails() {
    let mut session = FetchSession::new("http://test/".to_string());
    let response = HttpResponse::new(
        HttpVersion::Version1_1,
        HttpStatusCode::MovedPermanently,
        "Moved".to_string(),
    );
    let deliver = session.on_response(&response);
    assert!(!deliver);
    assert_eq!(session.state, FetchState::Failed);
}

#[test]
fn error_families_fail_without_delivering() {
    for code in [
        HttpStatusCode::Continue,
        HttpStatusCode::NotFound,
        HttpStatusCode::InternalServerError,
    ] {
        let mut session = FetchSession::new("http://test/".to_string());
        let response = HttpResponse::new(HttpVersion::Version1_1, code, "x".to_string());
        let deliver = session.on_response(&response);
        assert!(!deliver);
        assert_eq!(session.state, FetchState::Failed);
    }
}

#[test]
fn non_http_protocol_fails() {
    let mut session = FetchSession::new("ftp://test/".to_string());
    let parsed = ParsedUrl::parse("ftp://test/").expect("Couldn't parse!");
    assert!(!session.on_parsed(&parsed));
    assert_eq!(session.state, FetchState::Failed);
}

#[test]
fn transport_error_fails() {
    let mut session = FetchSession::new("http://test/".to_string());
    session.on_error();
    assert_eq!(session.state, FetchState::Failed);
}

#[test]
fn can_create_default() {
    let conn_cache = ConnectionCache::default();
    assert_eq!(conn_cache.len(), 0);
}

#[test]
fn reuses_connection() {
    let mut cache = ConnectionCache::default();
    let (slot1, new1) = cache.lookup_or_insert("localhost", 8080);
    assert!(new1);
    let (slot2, new2) = cache.lookup_or_insert("localhost", 8080);
    assert!(!new2);
    assert_eq!(slot1, slot2);
    assert_eq!(cache.len(), 1);
}

#[test]
fn creates_new_connection() {
    let mut cache = ConnectionCache::default();
    let (slot1, new1) = cache.lookup_or_insert("localhost", 8080);
    let (slot2, new2) = cache.lookup_or_insert("localhost", 8081);
    assert!(new1);
    assert!(new2);
    assert_ne!(slot1, slot2);
    assert_eq!(cache.len(), 2);
}
