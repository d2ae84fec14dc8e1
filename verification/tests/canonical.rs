//! Canonicalization: encoding, sorting, trimming, and independence from
//! header insertion order.
use sabi::canonical::{canonical_query, canonical_uri, uri_encode, CanonicalRequest};
use sabi::chars::{lower_string, str_eq, str_le, trim};
use sabi::crypto::HashedPayload;
use sabi::error::Error;
use sabi::headers::{ContentType, HeaderMap};

#[test]
fn uri_encoding_keeps_unreserved_bytes() {
    assert_eq!(uri_encode("AZaz09-._~", false), "AZaz09-._~");
}

#[test]
fn uri_encoding_escapes_with_uppercase_hex() {
    assert_eq!(uri_encode("a b", false), "a%20b");
    assert_eq!(uri_encode("a/b", false), "a%2Fb");
    assert_eq!(uri_encode("a=b&c", false), "a%3Db%26c");
}

#[test]
fn uri_encoding_spans_multi_byte_characters() {
    assert_eq!(uri_encode("\u{00fc}", false), "%C3%BC");
    assert_eq!(uri_encode("\u{3042}", false), "%E3%81%82");
}

#[test]
fn path_encoding_preserves_the_separator() {
    assert_eq!(uri_encode("a b/c d", true), "a%20b/c%20d");
    assert_eq!(canonical_uri("/photos/january/sample file.jpg"),
        "/photos/january/sample%20file.jpg");
}

#[test]
fn empty_path_becomes_the_root() {
    assert_eq!(canonical_uri(""), "/");
}

#[test]
fn query_entries_are_sorted_by_encoded_key_then_value() {
    let query = vec![
        ("b".to_string(), "2".to_string()),
        ("a".to_string(), "2".to_string()),
        ("a".to_string(), "1".to_string()),
    ];
    assert_eq!(canonical_query(&query), "a=1&a=2&b=2");
}

#[test]
fn empty_query_renders_empty() {
    let query: Vec<(String, String)> = Vec::new();
    assert_eq!(canonical_query(&query), "");
}

#[test]
fn header_names_are_lowercased_on_insertion() {
    let headers = HeaderMap::new().push("X-Amz-Date", "20200203T020304Z").unwrap();
    assert_eq!(headers.get("x-amz-date").unwrap().as_str(), "20200203T020304Z");
    assert_eq!(headers.get("X-AMZ-DATE").unwrap().as_str(), "20200203T020304Z");
    assert!(headers.get("host").is_none());
}

#[test]
fn header_insertion_replaces_in_place() {
    let headers = HeaderMap::new()
        .push("Content-Type", "text/plain")
        .unwrap()
        .push("content-type", "application/json")
        .unwrap();
    assert_eq!(headers.len(), 1);
    assert_eq!(headers.get("content-type").unwrap().as_str(), "application/json");
}

#[test]
fn header_value_with_control_characters_is_refused() {
    let refused = HeaderMap::new().push("x-thing", "line\nbreak");
    match refused {
        Err(Error::InvalidHeaderValue { header }) => assert_eq!(header, "x-thing"),
        other => panic!("expected the invalid-header-value error, got {:?}", other),
    }
}

fn payload() -> HashedPayload {
    let body: Vec<u8> = b"payload".to_vec();
    HashedPayload::from_bytes(&body)
}

#[test]
fn canonicalization_is_order_independent() {
    let one = HeaderMap::new()
        .push("Host", "bucket.s3.amazonaws.com")
        .unwrap()
        .push("X-Amz-Date", "20200203T020304Z")
        .unwrap()
        .push("Content-Type", "text/plain")
        .unwrap();
    let two = HeaderMap::new()
        .push("content-type", "text/plain")
        .unwrap()
        .push("host", "bucket.s3.amazonaws.com")
        .unwrap()
        .push("x-amz-date", "20200203T020304Z")
        .unwrap();
    let query: Vec<(String, String)> = Vec::new();
    let hash = payload();
    let first = CanonicalRequest::from_parts("PUT", "/key", &query, &one, &hash);
    let second = CanonicalRequest::from_parts("PUT", "/key", &query, &two, &hash);
    assert_eq!(first.text(), second.text());
    assert_eq!(first.signed_headers(), second.signed_headers());
}

#[test]
fn header_values_are_trimmed_in_the_canonical_form() {
    let headers = HeaderMap::new().push("Host", "  example.org\t ").unwrap();
    let query: Vec<(String, String)> = Vec::new();
    let hash = payload();
    let canonical = CanonicalRequest::from_parts("GET", "/", &query, &headers, &hash);
    assert!(canonical.text().contains("host:example.org\n"));
}

#[test]
fn lower_string_maps_only_ascii_letters() {
    assert_eq!(lower_string("AbC-12_Z"), "abc-12_z");
    assert_eq!(lower_string("\u{00dc}"), "\u{00dc}");
}

#[test]
fn trim_removes_surrounding_blanks_and_tabs() {
    assert_eq!(trim("  x y\t"), "x y");
    assert_eq!(trim("\t\t"), "");
    assert_eq!(trim("plain"), "plain");
}

#[test]
fn string_order_is_by_code_point() {
    assert!(str_le("abc", "abd"));
    assert!(str_le("ab", "abc"));
    assert!(!str_le("b", "a"));
    assert!(str_le("", "a"));
    assert!(str_eq("same", "same"));
    assert!(!str_eq("same", "Same"));
}

#[test]
fn content_type_defaults_to_opaque_bytes() {
    assert_eq!(ContentType::application_octet_stream().as_str(), "application/octet-stream");
    assert_eq!(ContentType::new("text/plain".to_string()).as_str(), "text/plain");
}
