//! The signing engine against fixed instants and published test vectors.
use sabi::canonical::CanonicalRequest;
use sabi::credentials::{AccessKey, Credentials, SecretKey};
use sabi::crypto::{ByteSource, HashedPayload};
use sabi::hex::hex_encode;
use sabi::index::{RegionCode, ServiceCode};
use sabi::sign::{
    compute_signature, derive_signing_key, string_to_sign, Authorization, CredentialScope,
    ScopeTermination,
};
use sabi::time::{AmzTimestamp, DateStamp, UtcInstant};

const EMPTY_SHA256: &str = "e3b0c44298fc1c149afbf4c8996fb92427ae41e4649b934ca495991b7852b855";

fn fixed_instant() -> UtcInstant {
    UtcInstant::try_new(2020, 2, 3, 2, 3, 4).unwrap()
}

#[test]
fn it_works() {
    let time = fixed_instant();
    let stamp = DateStamp::from(&time);
    assert_eq!(stamp.as_str(), "20200203");
}

#[test]
fn amz_timestamp_formats_basic_utc() {
    let time = fixed_instant();
    let stamp = AmzTimestamp::from(&time);
    assert_eq!(stamp.as_str(), "20200203T020304Z");
}

#[test]
fn date_stamp_is_deterministic() {
    let a = DateStamp::from(&fixed_instant());
    let b = DateStamp::from(&fixed_instant());
    assert_eq!(a.as_str(), b.as_str());
}

#[test]
fn timestamp_date_portion_matches_date_stamp() {
    let time = UtcInstant::try_new(1999, 12, 31, 23, 59, 59).unwrap();
    let date = DateStamp::from(&time);
    let full = AmzTimestamp::from(&time);
    assert_eq!(&full.as_str()[..8], date.as_str());
}

#[test]
fn try_new_rejects_out_of_range_fields() {
    assert!(UtcInstant::try_new(2020, 13, 3, 2, 3, 4).is_none());
    assert!(UtcInstant::try_new(2020, 0, 3, 2, 3, 4).is_none());
    assert!(UtcInstant::try_new(2020, 2, 32, 2, 3, 4).is_none());
    assert!(UtcInstant::try_new(2020, 2, 3, 24, 3, 4).is_none());
    assert!(UtcInstant::try_new(2020, 2, 3, 2, 60, 4).is_none());
    assert!(UtcInstant::try_new(2020, 2, 3, 2, 3, 60).is_none());
    assert!(UtcInstant::try_new(10000, 2, 3, 2, 3, 4).is_none());
    assert!(UtcInstant::try_new(2020, 2, 3, 2, 3, 4).is_some());
}

#[test]
fn the_clock_yields_a_well_formed_instant() {
    let now = UtcInstant::now().unwrap();
    assert!((1..=12).contains(&now.month));
    assert!((1..=31).contains(&now.day));
    assert!(now.hour <= 23 && now.minute <= 59 && now.second <= 59);
    assert!(now.year >= 2020);
}

#[test]
fn credential_scope_renders_the_four_components() {
    let scope = CredentialScope::from(
        DateStamp::new("20150830".to_string()),
        RegionCode::new("us-east-1"),
        ServiceCode::S3,
        ScopeTermination::new("aws4_request".to_string()),
    );
    assert_eq!(scope.as_str(), "20150830/us-east-1/s3/aws4_request");
}

#[test]
fn hashing_twice_yields_identical_digests() {
    let content: Vec<u8> = b"some request body".to_vec();
    let first = HashedPayload::from_bytes(&content);
    let second = HashedPayload::from_bytes(&content);
    assert_eq!(first.as_str(), second.as_str());
}

#[test]
fn hashing_empty_content_yields_the_well_known_digest() {
    let empty: Vec<u8> = Vec::new();
    let hash = HashedPayload::from_bytes(&empty);
    assert_eq!(hash.as_str(), EMPTY_SHA256);
}

#[test]
fn unsigned_sentinel_is_reserved_literal() {
    assert_eq!(HashedPayload::unsigned().as_str(), "UNSIGNED-PAYLOAD");
}

#[test]
fn hash_then_rewind_leaves_the_read_position_unchanged() {
    let content: Vec<u8> = b"streamed body content".to_vec();
    let mut source = ByteSource::new(content.clone());
    let before = source.read_to_end();
    source.rewind();

    let hash = HashedPayload::from_source(&mut source);
    assert_eq!(hash.as_str(), HashedPayload::from_bytes(&content).as_str());

    let after = source.read_to_end();
    assert_eq!(before, after);
    assert_eq!(after, content);
}

#[test]
fn hash_then_rewind_restores_a_mid_stream_position() {
    let content: Vec<u8> = b"0123456789".to_vec();
    let mut source = ByteSource::new(content);
    let whole = source.read_to_end();
    assert_eq!(whole, b"0123456789".to_vec());

    // The cursor now rests at the end; hashing must put it back there.
    let _hash = HashedPayload::from_source(&mut source);
    let rest = source.read_to_end();
    assert!(rest.is_empty());
}

#[test]
fn hex_encode_renders_two_lowercase_digits_per_byte() {
    let bytes: Vec<u8> = vec![0x00, 0xff, 0x10, 0xab];
    assert_eq!(hex_encode(&bytes), "00ff10ab");
}

fn vector_headers() -> sabi::headers::HeaderMap {
    sabi::headers::HeaderMap::new()
        .push("Host", "iam.amazonaws.com")
        .unwrap()
        .push("Content-Type", "application/x-www-form-urlencoded; charset=utf-8")
        .unwrap()
        .push("X-Amz-Date", "20150830T123600Z")
        .unwrap()
}

fn vector_query() -> Vec<(String, String)> {
    vec![
        ("Action".to_string(), "ListUsers".to_string()),
        ("Version".to_string(), "2010-05-08".to_string()),
    ]
}

#[test]
fn canonical_request_matches_the_published_vector() {
    let empty: Vec<u8> = Vec::new();
    let hash = HashedPayload::from_bytes(&empty);
    let canonical = CanonicalRequest::from_parts(
        "GET",
        "/",
        &vector_query(),
        &vector_headers(),
        &hash,
    );
    let expected = "GET\n\
                    /\n\
                    Action=ListUsers&Version=2010-05-08\n\
                    content-type:application/x-www-form-urlencoded; charset=utf-8\n\
                    host:iam.amazonaws.com\n\
                    x-amz-date:20150830T123600Z\n\
                    \n\
                    content-type;host;x-amz-date\n\
                    e3b0c44298fc1c149afbf4c8996fb92427ae41e4649b934ca495991b7852b855";
    assert_eq!(canonical.text(), expected);
    assert_eq!(canonical.signed_headers(), "content-type;host;x-amz-date");
}

#[test]
fn signature_matches_the_published_vector() {
    let empty: Vec<u8> = Vec::new();
    let hash = HashedPayload::from_bytes(&empty);
    let canonical = CanonicalRequest::from_parts(
        "GET",
        "/",
        &vector_query(),
        &vector_headers(),
        &hash,
    );
    let scope = CredentialScope::from(
        DateStamp::new("20150830".to_string()),
        RegionCode::new("us-east-1"),
        ServiceCode::Iam,
        ScopeTermination::aws4_request(),
    );
    let timestamp = AmzTimestamp::new("20150830T123600Z".to_string());
    let sts = string_to_sign(&timestamp, &scope, canonical.text());
    let expected_sts = "AWS4-HMAC-SHA256\n\
                        20150830T123600Z\n\
                        20150830/us-east-1/iam/aws4_request\n\
                        f536975d06c0309214f805bb90ccff089219ecd68b2577efef23edd43b7e1a59";
    assert_eq!(sts, expected_sts);

    let secret = SecretKey::new("wJalrXUtnFEMI/K7MDENG+bPxRfiCYEXAMPLEKEY".to_string());
    let key = derive_signing_key(&secret, &scope);
    let signature = compute_signature(&key, sts.as_str());
    assert_eq!(
        signature,
        "5d672d79c15b13162d9279b0855cfba6789a8edb4c82c400e06b5924a6f2b5d7"
    );

    let access_key = AccessKey::new("AKIDEXAMPLE".to_string());
    let authorization = Authorization::from_parts(
        &access_key,
        &scope,
        canonical.signed_headers(),
        signature.as_str(),
    );
    assert_eq!(
        authorization.to_header_value(),
        "AWS4-HMAC-SHA256 Credential=AKIDEXAMPLE/20150830/us-east-1/iam/aws4_request, \
         SignedHeaders=content-type;host;x-amz-date, \
         Signature=5d672d79c15b13162d9279b0855cfba6789a8edb4c82c400e06b5924a6f2b5d7"
    );
}

#[test]
fn credentials_builder_requires_both_keys() {
    let credentials = Credentials::builder()
        .access_key(AccessKey::new("AKIDEXAMPLE".to_string()))
        .secret_key(SecretKey::new("example-secret-key-material".to_string()))
        .build();
    assert_eq!(credentials.access_key.as_str(), "AKIDEXAMPLE");
    assert_eq!(credentials.secret_key.as_str(), "example-secret-key-material");
}

#[test]
fn region_code_normalizes_case() {
    assert_eq!(RegionCode::new("US-East-1").as_str(), "us-east-1");
    assert_eq!(RegionCode::new("AP-NORTHEAST-1").as_str(), "ap-northeast-1");
    assert_eq!(RegionCode::new("EU-Central-1").as_str(), "eu-central-1");
}

#[test]
fn service_code_tokens() {
    assert_eq!(ServiceCode::Iam.as_str(), "iam");
    assert_eq!(ServiceCode::S3.as_str(), "s3");
    assert_eq!(ServiceCode::Unknown("glacier".to_string()).as_str(), "glacier");
}
