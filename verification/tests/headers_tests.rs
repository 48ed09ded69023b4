use rust_wget::headers::Headers;
use rust_wget::text::eq_ignore_ascii_case;
use unicase::UniCase;

#[test]
fn can_make_default() {
    let _ = Headers::default();
}

#[test]
fn headers_can_add_headers() {
    let mut headers = Headers::default();
    headers.add("My Header".to_string(), "My Value".to_string());
    headers.add("My Header 2".to_string(), "My Value 2".to_string());
    assert_eq!(headers.get("My Header"), Some("My Value".to_string()));
    assert_eq!(headers.get("My Header 2"), Some("My Value 2".to_string()));
}

#[test]
fn can_iter_headers() {
    let mut headers = Headers::default();
    headers.add("My Header".to_string(), "My Value".to_string());
    headers.add("My Header 2".to_string(), "My Value 2".to_string());

    assert_eq!(headers.len(), 2);
    assert_eq!(
        headers.entry_at(0),
        ("My Header".to_string(), "My Value".to_string())
    );
    assert_eq!(
        headers.entry_at(1),
        ("My Header 2".to_string(), "My Value 2".to_string())
    );
}

#[test]
fn can_remove_headers() {
    let mut headers = Headers::default();
    headers.add("My Header".to_string(), "My Value".to_string());
    headers.add("My Header 2".to_string(), "My Value 2".to_string());
    assert_eq!(headers.get("My Header"), Some("My Value".to_string()));
    assert_eq!(headers.get("My Header 2"), Some("My Value 2".to_string()));
    assert_eq!(headers.remove("My Header"), Some("My Value".to_string()));
    assert_eq!(headers.get("My Header"), None);
    assert_eq!(headers.get("My Header 2"), Some("My Value 2".to_string()));
}

#[test]
fn add_get_remove_treat_ascii_case_alike() {
    let mut headers = Headers::default();
    headers.add("Content-Length".to_string(), "5".to_string());
    assert_eq!(headers.get("content-length"), Some("5".to_string()));
    assert_eq!(headers.get("CONTENT-LENGTH"), Some("5".to_string()));

    // A later add under another casing overwrites the value but keeps the
    // first-inserted casing and position.
    headers.add("CONTENT-length".to_string(), "7".to_string());
    assert_eq!(headers.len(), 1);
    assert_eq!(headers.entry_at(0), ("Content-Length".to_string(), "7".to_string()));

    assert_eq!(headers.remove("CoNtEnT-lEnGtH"), Some("7".to_string()));
    assert_eq!(headers.len(), 0);
    assert_eq!(headers.get("Content-Length"), None);
}

#[test]
fn overwrite_keeps_insertion_order() {
    let mut headers = Headers::default();
    headers.add("A".to_string(), "1".to_string());
    headers.add("B".to_string(), "2".to_string());
    headers.add("a".to_string(), "3".to_string());
    assert_eq!(headers.len(), 2);
    assert_eq!(headers.entry_at(0), ("A".to_string(), "3".to_string()));
    assert_eq!(headers.entry_at(1), ("B".to_string(), "2".to_string()));
}

#[test]
fn case_folding_agrees_with_unicase_on_header_names() {
    let pairs = [
        ("Content-Length", "content-length"),
        ("ACCEPT", "accept"),
        ("Transfer-Encoding", "TRANSFER-ENCODING"),
        ("X-Custom", "x-cUSTOM"),
        ("Host", "User-Agent"),
        ("Accept", "Accept-Encoding"),
    ];
    for (a, b) in pairs {
        assert_eq!(
            eq_ignore_ascii_case(a, b),
            UniCase::new(a) == UniCase::new(b),
            "disagreement on {a:?} vs {b:?}"
        );
    }
}
