use rust_wget::error::WgetError;
use rust_wget::protocol::Protocol;
use rust_wget::url::ParsedUrl;

#[test]
fn url_parses_common_url() {
    let url = ParsedUrl::parse("http://google.com").expect("Couldn't parse!");
    assert_eq!(
        url,
        ParsedUrl {
            protocol: Protocol::Http,
            domain_name: "google.com".to_string(),
            port: 80,
            path: "/".to_string(),
            filename: "index.html".to_string(),
        }
    )
}

#[test]
fn url_parses_uncommon_url() {
    let url = ParsedUrl::parse("http://test").expect("Couldn't parse!");
    assert_eq!(
        url,
        ParsedUrl {
            protocol: Protocol::Http,
            domain_name: "test".to_string(),
            port: 80,
            path: "/".to_string(),
            filename: "index.html".to_string(),
        }
    )
}

#[test]
fn url_parses_url_without_protocol() {
    let url = ParsedUrl::parse("www.google.com").expect("Couldn't parse!");
    assert_eq!(
        url,
        ParsedUrl {
            protocol: Protocol::Http,
            domain_name: "www.google.com".to_string(),
            port: 80,
            path: "/".to_string(),
            filename: "index.html".to_string(),
        }
    )
}

#[test]
fn url_parses_url_with_port() {
    let url = ParsedUrl::parse("http://test:8080").expect("Couldn't parse!");
    assert_eq!(
        url,
        ParsedUrl {
            protocol: Protocol::Http,
            domain_name: "test".to_string(),
            port: 8080,
            path: "/".to_string(),
            filename: "index.html".to_string(),
        }
    )
}

#[test]
fn url_parses_url_with_path() {
    let url = ParsedUrl::parse("http://test/my_site.html").expect("Couldn't parse!");
    assert_eq!(
        url,
        ParsedUrl {
            protocol: Protocol::Http,
            domain_name: "test".to_string(),
            port: 80,
            path: "/my_site.html".to_string(),
            filename: "my_site.html".to_string(),
        }
    )
}

#[test]
fn url_parses_url_with_protocol() {
    {
        let url = ParsedUrl::parse("http://test").expect("Couldn't parse");
        assert_eq!(
            url,
            ParsedUrl {
                protocol: Protocol::Http,
                domain_name: "test".to_string(),
                port: 80,
                path: "/".to_string(),
                filename: "index.html".to_string(),
            }
        )
    }
    {
        let url = ParsedUrl::parse("https://test").expect("Couldn't parse");
        assert_eq!(
            url,
            ParsedUrl {
                protocol: Protocol::Https,
                domain_name: "test".to_string(),
                port: 443,
                path: "/".to_string(),
                filename: "index.html".to_string(),
            }
        )
    }
    {
        let url = ParsedUrl::parse("ftp://test").expect("Couldn't parse");
        assert_eq!(
            url,
            ParsedUrl {
                protocol: Protocol::Ftp,
                domain_name: "test".to_string(),
                port: 21,
                path: "/".to_string(),
                filename: "index.html".to_string(),
            }
        )
    }
}

#[test]
fn url_parses_url_with_port_and_path() {
    let url = ParsedUrl::parse("http://test:8080/my_site.html").expect("Couldn't parse!");
    assert_eq!(
        url,
        ParsedUrl {
            protocol: Protocol::Http,
            domain_name: "test".to_string(),
            port: 8080,
            path: "/my_site.html".to_string(),
            filename: "my_site.html".to_string(),
        }
    )
}

#[test]
fn unknown_scheme_defaults_to_http_without_consuming() {
    // A colon before the first slash that is not a known scheme leaves the
    // input as it is: here it separates host and port.
    let url = ParsedUrl::parse("www.google.com:8080/a").expect("Couldn't parse!");
    assert_eq!(
        url,
        ParsedUrl {
            protocol: Protocol::Http,
            domain_name: "www.google.com".to_string(),
            port: 8080,
            path: "/a".to_string(),
            filename: "a".to_string(),
        }
    )
}

#[test]
fn path_ending_in_slash_defaults_filename() {
    let url = ParsedUrl::parse("http://test/docs/").expect("Couldn't parse!");
    assert_eq!(url.path, "/docs/");
    assert_eq!(url.filename, "index.html");
}

#[test]
fn invalid_port_is_error() {
    assert!(matches!(
        ParsedUrl::parse("http://test:abc"),
        Err(WgetError::ParsingError(_))
    ));
    assert!(matches!(
        ParsedUrl::parse("http://test:65536"),
        Err(WgetError::ParsingError(_))
    ));
    let url = ParsedUrl::parse("http://test:65535").expect("Couldn't parse!");
    assert_eq!(url.port, 65535);
}

#[test]
fn empty_host_is_error() {
    assert!(matches!(
        ParsedUrl::parse("http://"),
        Err(WgetError::ParsingError(_))
    ));
    assert!(matches!(
        ParsedUrl::parse("http:///x"),
        Err(WgetError::ParsingError(_))
    ));
}
