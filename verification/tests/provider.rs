//! Request assembly: region resolution, resource loading, endpoint
//! rendering and the finished descriptor.
use sabi::credentials::{AccessKey, Credentials, SecretKey};
use sabi::crypto::HashedPayload;
use sabi::error::{classify_open_failure, Error, OperationKind};
use sabi::headers::ContentType;
use sabi::index::RegionCode;
use sabi::provider::{
    load_resource, to_endpoint, FileRequest, HttpMethod, RequestProvider, S3Bucket, S3Client,
};
use sabi::time::UtcInstant;

fn credentials() -> Credentials {
    Credentials::builder()
        .access_key(AccessKey::new("AKIDEXAMPLE".to_string()))
        .secret_key(SecretKey::new("wJalrXUtnFEMI/K7MDENG+bPxRfiCYEXAMPLEKEY".to_string()))
        .build()
}

fn file_request(region: Option<RegionCode>) -> FileRequest {
    FileRequest {
        file_path: "./sample.txt".to_string(),
        object_key: "folder/sample.txt".to_string(),
        content_type: Some(ContentType::new("text/plain".to_string())),
        region_code: region,
    }
}

fn instant() -> UtcInstant {
    UtcInstant::try_new(2020, 2, 3, 2, 3, 4).unwrap()
}

#[test]
fn fails_with_region_not_specified_without_any_region() {
    let credentials = credentials();
    let bucket = S3Bucket::new("demo-bucket".to_string());
    let request = file_request(None);
    let default_region: Option<RegionCode> = None;
    let provider = RequestProvider::new(
        HttpMethod::Put,
        &credentials,
        &bucket,
        &request,
        &default_region,
    );
    let resource = load_resource(b"body".to_vec(), request.content_type, None, instant());
    match provider.provide(resource) {
        Err(Error::RegionNotSpecified) => {},
        other => panic!("expected the missing-region error, got {:?}", other.map(|_| ())),
    }
}

#[test]
fn succeeds_with_only_the_default_region() {
    let credentials = credentials();
    let bucket = S3Bucket::new("demo-bucket".to_string());
    let request = file_request(None);
    let default_region = Some(RegionCode::new("us-east-1"));
    let provider = RequestProvider::new(
        HttpMethod::Put,
        &credentials,
        &bucket,
        &request,
        &default_region,
    );
    let resource = load_resource(b"body".to_vec(), request.content_type, None, instant());
    let provided = provider.provide(resource).unwrap();
    let authorization = provided.headers.get("authorization").unwrap();
    assert!(authorization.contains("/us-east-1/s3/aws4_request"));
}

#[test]
fn explicit_region_overrides_the_default() {
    let credentials = credentials();
    let bucket = S3Bucket::new("demo-bucket".to_string());
    let request = file_request(Some(RegionCode::new("ap-northeast-1")));
    let default_region = Some(RegionCode::new("us-east-1"));
    let provider = RequestProvider::new(
        HttpMethod::Put,
        &credentials,
        &bucket,
        &request,
        &default_region,
    );
    let resource = load_resource(
        b"body".to_vec(),
        request.content_type,
        Some(RegionCode::new("ap-northeast-1")),
        instant(),
    );
    let provided = provider.provide(resource).unwrap();
    let authorization = provided.headers.get("authorization").unwrap();
    assert!(authorization.contains("/ap-northeast-1/s3/aws4_request"));
}

#[test]
fn provided_request_carries_the_signing_headers_in_order() {
    let client = S3Client {
        credentials: credentials(),
        bucket: S3Bucket::new("demo-bucket".to_string()),
        default_region: Some(RegionCode::new("us-east-1")),
    };
    let request = file_request(None);
    let body: Vec<u8> = b"object content".to_vec();
    let resource = load_resource(body.clone(), request.content_type.clone(), None, instant());
    let provided = client.prepare_put_object(&request, resource).unwrap();

    assert_eq!(provided.url, "https://demo-bucket.s3.amazonaws.com/folder/sample.txt");
    assert!(matches!(provided.method, HttpMethod::Put));
    assert_eq!(provided.body.as_ref().unwrap(), &body);
    assert_eq!(provided.headers.len(), 4);
    assert_eq!(provided.headers.get("content-type").unwrap().as_str(), "text/plain");
    assert_eq!(
        provided.headers.get("x-amz-content-sha256").unwrap().as_str(),
        HashedPayload::from_bytes(&body).as_str()
    );
    assert_eq!(provided.headers.get("x-amz-date").unwrap().as_str(), "20200203T020304Z");
    let authorization = provided.headers.get("authorization").unwrap();
    assert!(authorization.starts_with(
        "AWS4-HMAC-SHA256 Credential=AKIDEXAMPLE/20200203/us-east-1/s3/aws4_request, \
         SignedHeaders=content-type;x-amz-content-sha256;x-amz-date, Signature="
    ));
    let signature = &authorization[authorization.len() - 64..];
    assert!(signature.chars().all(|c| c.is_ascii_hexdigit() && !c.is_ascii_uppercase()));
}

#[test]
fn missing_content_type_falls_back_to_opaque_bytes() {
    let client = S3Client {
        credentials: credentials(),
        bucket: S3Bucket::new("demo-bucket".to_string()),
        default_region: Some(RegionCode::new("us-east-1")),
    };
    let request = FileRequest {
        file_path: "./sample.bin".to_string(),
        object_key: "sample.bin".to_string(),
        content_type: None,
        region_code: None,
    };
    let resource = load_resource(b"raw".to_vec(), None, None, instant());
    let provided = client.prepare_put_object(&request, resource).unwrap();
    assert_eq!(
        provided.headers.get("content-type").unwrap().as_str(),
        "application/octet-stream"
    );
}

#[test]
fn endpoint_is_virtual_host_style() {
    let bucket = S3Bucket::new("demo-bucket".to_string());
    let url = to_endpoint(&bucket, "a key/with space");
    assert_eq!(url.render(), "https://demo-bucket.s3.amazonaws.com/a%20key/with%20space");
}

#[test]
fn loaded_resource_hash_matches_an_independent_hash() {
    let body: Vec<u8> = b"the object bytes".to_vec();
    let resource = load_resource(body.clone(), None, None, instant());
    assert_eq!(resource.hash.as_str(), HashedPayload::from_bytes(&body).as_str());
    assert_eq!(resource.body.unwrap(), body);
}

#[test]
fn missing_file_maps_to_file_not_found_with_the_path() {
    let error = classify_open_failure(
        OperationKind::PutObject,
        true,
        "./missing.txt",
        "entity not found".to_string(),
    );
    match error {
        Error::FileNotFound { operation, path, description } => {
            assert_eq!(operation, OperationKind::PutObject);
            assert_eq!(path, "./missing.txt");
            assert_eq!(description, "entity not found");
        },
        other => panic!("expected the file-not-found error, got {:?}", other),
    }
}

#[test]
fn other_open_failures_map_to_generic_io() {
    let error = classify_open_failure(
        OperationKind::PutObject,
        false,
        "./locked.txt",
        "permission denied".to_string(),
    );
    match error {
        Error::GenericIo { description } => assert_eq!(description, "permission denied"),
        other => panic!("expected the generic io error, got {:?}", other),
    }
}

#[test]
fn error_kinds_have_stable_tokens() {
    assert_eq!(Error::RegionNotSpecified.kind_token(), "region not specified");
    assert_eq!(
        Error::EncodingError { description: "bad".to_string() }.kind_token(),
        "encoding error"
    );
    assert_eq!(
        Error::UpstreamFailure { status: 500, summary: "server".to_string() }.kind_token(),
        "upstream failure"
    );
    assert_eq!(
        Error::RequiredValueMissing { name: "access key".to_string() }.kind_token(),
        "required value missing"
    );
}
