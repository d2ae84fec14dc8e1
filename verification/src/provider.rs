//! Request assembly: endpoint resolution, resource metadata, and the
//! provider that turns an operation into a dispatch-ready request.
//!
//! The provider resolves the effective region (explicit override first,
//! else the configured default, else a typed failure), attaches the
//! required signing headers and the authorization value, and yields the
//! finished request descriptor. Nothing mutates the descriptor afterward.
use vstd::prelude::*;

use crate::canonical::spec_canonical_query;
use crate::canonical::spec_canonical_uri;
use crate::credentials::Credentials;
use crate::crypto::{ByteSource, HashedPayload};
use crate::error::Error;
use crate::headers::{
    header_views, spec_insert, spec_valid_value, ContentType, HeaderMap, HeaderSeq,
};
use crate::index::RegionCode;
use crate::time::UtcInstant;

verus! {

/// The verb of a request.
#[derive(Debug, Clone, Copy, PartialEq, Eq)]
pub enum HttpMethod {
    Get,
    Put,
    Post,
    Delete,
    Head,
}

impl HttpMethod {
    /// The verb token on the wire.
    pub open spec fn spec_str(&self) -> Seq<char> {
        match self {
            HttpMethod::Get => "GET"@,
            HttpMethod::Put => "PUT"@,
            HttpMethod::Post => "POST"@,
            HttpMethod::Delete => "DELETE"@,
            HttpMethod::Head => "HEAD"@,
        }
    }

    pub fn as_str(&self) -> (r: &str)
        ensures
            r@ == self.spec_str(),
    {
        match self {
            HttpMethod::Get => "GET",
            HttpMethod::Put => "PUT",
            HttpMethod::Post => "POST",
            HttpMethod::Delete => "DELETE",
            HttpMethod::Head => "HEAD",
        }
    }
}

/// The bucket a request addresses.
#[derive(Debug, Clone, PartialEq, Eq)]
pub struct S3Bucket {
    value: String,
}

impl S3Bucket {
    pub closed spec fn view(&self) -> Seq<char> {
        self.value@
    }

    pub fn new(value: String) -> (r: S3Bucket)
        ensures
            r@ == value@,
    {
        S3Bucket { value }
    }

    pub fn as_str(&self) -> (r: &str)
        ensures
            r@ == self@,
    {
        self.value.as_str()
    }
}

/// The rendered form of a target: base, encoded path, and the canonical
/// query after `?` when parameters exist.
pub open spec fn spec_url_render(base: Seq<char>, path: Seq<char>, query: HeaderSeq) -> Seq<char> {
    if query.len() == 0 {
        base + spec_canonical_uri(path)
    } else {
        base + spec_canonical_uri(path) + seq!['?'] + spec_canonical_query(query)
    }
}

/// A resolved target: scheme and host, the object path, and the query
/// parameters, held apart so canonicalization can reach each.
pub struct RequestUrl {
    pub base: String,
    pub path: String,
    pub query: Vec<(String, String)>,
}

impl RequestUrl {
    /// The rendered form handed to the transport: base, encoded path,
    /// and the canonical query after `?` when parameters exist.
    pub open spec fn spec_render(&self) -> Seq<char> {
        spec_url_render(self.base@, self.path@, header_views(self.query@))
    }

    /// Renders the full URL string.
    pub fn render(&self) -> (r: String)
        ensures
            r@ == self.spec_render(),
    {
        let mut out = String::new();
        crate::strings::push_str(&mut out, self.base.as_str());
        let uri = crate::canonical::canonical_uri(self.path.as_str());
        crate::strings::push_str(&mut out, uri.as_str());
        if self.query.len() > 0 {
            crate::strings::push_char(&mut out, '?');
            let rendered = crate::canonical::canonical_query(&self.query);
            crate::strings::push_str(&mut out, rendered.as_str());
        }
        proof {
            assert(out@ =~= self.spec_render());
        }
        out
    }
}

/// The fully qualified endpoint of an object in a bucket: virtual-host
/// style base, the object key as the path, no query.
pub fn to_endpoint(bucket: &S3Bucket, object_key: &str) -> (r: RequestUrl)
    ensures
        r.base@ == "https://"@ + bucket@ + ".s3.amazonaws.com"@,
        r.path@ == seq!['/'] + object_key@,
        r.query@.len() == 0,
{
    let mut base = String::new();
    crate::strings::push_str(&mut base, "https://");
    crate::strings::push_str(&mut base, bucket.as_str());
    crate::strings::push_str(&mut base, ".s3.amazonaws.com");
    let mut path = String::new();
    crate::strings::push_char(&mut path, '/');
    crate::strings::push_str(&mut path, object_key);
    proof {
        assert(path@ =~= seq!['/'] + object_key@);
    }
    RequestUrl { base, path, query: Vec::new() }
}

/// Everything request-specific that signing consumes: the target, the
/// verb, the effective region, the payload hash and the request instant.
pub struct RequestParts {
    pub url: RequestUrl,
    pub method: HttpMethod,
    pub region: RegionCode,
    pub hashed_payload: HashedPayload,
    pub requested_at: UtcInstant,
}

impl RequestParts {
    pub fn new(
        url: RequestUrl,
        method: HttpMethod,
        region: RegionCode,
        hashed_payload: HashedPayload,
        requested_at: UtcInstant,
    ) -> (r: RequestParts)
        ensures
            r.url == url,
            r.method == method,
            r.region == region,
            r.hashed_payload == hashed_payload,
            r.requested_at == requested_at,
    {
        RequestParts { url, method, region, hashed_payload, requested_at }
    }
}

/// The loaded metadata of one operation's resource: body bytes, payload
/// hash, optional explicit region, optional media type, and the instant
/// the resource was loaded.
pub struct RequestResource {
    pub body: Option<Vec<u8>>,
    pub hash: HashedPayload,
    pub region: Option<RegionCode>,
    pub content_type: Option<ContentType>,
    pub requested_at: UtcInstant,
}

/// Builds the resource of an in-memory body: hashes the content through
/// the rewinding source, then hands the same content back as the body, so
/// the hash reflects exactly the bytes that will be transmitted.
pub fn load_resource(
    bytes: Vec<u8>,
    content_type: Option<ContentType>,
    region: Option<RegionCode>,
    requested_at: UtcInstant,
) -> (r: RequestResource)
    ensures
        r.hash@ == crate::crypto::spec_payload_hash(bytes@),
        r.body matches Some(b) && b@ == bytes@,
        r.region == region,
        r.content_type == content_type,
        r.requested_at == requested_at,
{
    let mut source = ByteSource::new(bytes);
    let hash = HashedPayload::from_source(&mut source);
    let body = source.into_inner();
    RequestResource { body: Some(body), hash, region, content_type, requested_at }
}

/// A file-backed upload: the source path, the destination key, and the
/// optional media type and region override.
#[derive(Debug)]
pub struct FileRequest {
    pub file_path: String,
    pub object_key: String,
    pub content_type: Option<ContentType>,
    pub region_code: Option<RegionCode>,
}

/// The boundary artifact handed to the transport: verb, rendered target,
/// headers and the optional body. Never mutated after construction.
pub struct InternalRequest {
    pub method: HttpMethod,
    pub url: String,
    pub headers: HeaderMap,
    pub body: Option<Vec<u8>>,
}

/// The media type that is actually sent: the explicit one, or the opaque
/// byte default.
pub open spec fn spec_content_type_choice(ct: Option<ContentType>) -> Seq<char> {
    match ct {
        Some(c) => c@,
        None => "application/octet-stream"@,
    }
}

/// The effective region of a request: the explicit override first, else
/// the configured default.
pub open spec fn spec_effective_region(
    explicit: Option<RegionCode>,
    default: Option<RegionCode>,
) -> Option<RegionCode> {
    match explicit {
        Some(r) => Some(r),
        None => default,
    }
}

/// The three signing headers every provided request starts from, in
/// insertion order: media type, payload hash, request timestamp.
pub open spec fn spec_base_headers(ct: Seq<char>, hash: Seq<char>, ts: Seq<char>) -> HeaderSeq {
    seq![("content-type"@, ct), ("x-amz-content-sha256"@, hash), ("x-amz-date"@, ts)]
}

/// The authorization value of a provided request, over its resolved
/// region and loaded resource.
pub open spec fn spec_provided_authorization(
    credentials: Credentials,
    url_path: Seq<char>,
    url_query: HeaderSeq,
    method: HttpMethod,
    region: RegionCode,
    resource_hash: Seq<char>,
    requested_at: UtcInstant,
    headers: HeaderSeq,
) -> Seq<char> {
    let scope_str = crate::sign::spec_scope(
        crate::time::spec_date_stamp(requested_at),
        region.spec_str(),
        "s3"@,
        "aws4_request"@,
    );
    crate::sign::spec_authorization_value(
        credentials.access_key@,
        scope_str,
        crate::canonical::spec_signed_headers(headers),
        crate::sign::spec_signature(
            crate::sign::spec_signing_key(
                credentials.secret_key@,
                crate::time::spec_date_stamp(requested_at),
                region.spec_str(),
                "s3"@,
                "aws4_request"@,
            ),
            crate::sign::spec_string_to_sign(
                crate::time::spec_amz_timestamp(requested_at),
                scope_str,
                crate::canonical::spec_canonical_request(
                    method.spec_str(),
                    url_path,
                    url_query,
                    headers,
                    resource_hash,
                ),
            ),
        ),
    )
}

/// Exactly what providing a request yields, for every input: which error
/// comes on which input, and the exact request descriptor on success.
pub open spec fn spec_provide_post(
    credentials: Credentials,
    url_base: Seq<char>,
    url_path: Seq<char>,
    url_query: HeaderSeq,
    method: HttpMethod,
    default_region: Option<RegionCode>,
    resource: RequestResource,
    r: Result<InternalRequest, Error>,
) -> bool {
    let region_choice = spec_effective_region(resource.region, default_region);
    let ct = spec_content_type_choice(resource.content_type);
    let ts = crate::time::spec_amz_timestamp(resource.requested_at);
    match region_choice {
        None => r == Result::<InternalRequest, Error>::Err(Error::RegionNotSpecified),
        Some(region) => {
            let base = spec_base_headers(ct, resource.hash@, ts);
            let auth = spec_provided_authorization(
                credentials,
                url_path,
                url_query,
                method,
                region,
                resource.hash@,
                resource.requested_at,
                base,
            );
            &&& !spec_valid_value(ct) ==> (r matches Err(e) && e matches Error::InvalidHeaderValue {
                header: n,
            } && n@ == "content-type"@)
            &&& spec_valid_value(ct) && !spec_valid_value(resource.hash@) ==> (r matches Err(e)
                && e matches Error::InvalidHeaderValue { header: n } && n@
                == "x-amz-content-sha256"@)
            &&& spec_valid_value(ct) && spec_valid_value(resource.hash@) && !spec_valid_value(ts)
                ==> (r matches Err(e) && e matches Error::InvalidHeaderValue { header: n } && n@
                == "x-amz-date"@)
            &&& spec_valid_value(ct) && spec_valid_value(resource.hash@) && spec_valid_value(ts)
                && !spec_valid_value(auth) ==> (r matches Err(e)
                && e matches Error::InvalidHeaderValue { header: n } && n@ == "authorization"@)
            &&& spec_valid_value(ct) && spec_valid_value(resource.hash@) && spec_valid_value(ts)
                && spec_valid_value(auth) ==> (r matches Ok(req) && req.method == method
                && req.url@ == spec_url_render(url_base, url_path, url_query)
                && req.headers@ == base.push(
                ("authorization"@, auth),
            ) && req.body == resource.body)
        },
    }
}

/// Translates an abstract operation into a dispatch-ready request:
/// resolves the endpoint at construction, then signs and assembles when
/// the resource is supplied.
pub struct RequestProvider<'a> {
    pub credentials: &'a Credentials,
    pub url: RequestUrl,
    pub method: HttpMethod,
    pub default_region: &'a Option<RegionCode>,
}

impl<'a> RequestProvider<'a> {
    /// Resolves the operation's endpoint from the bucket and the object
    /// key of the request.
    pub fn new(
        method: HttpMethod,
        credentials: &'a Credentials,
        bucket: &S3Bucket,
        request: &FileRequest,
        default_region: &'a Option<RegionCode>,
    ) -> (r: RequestProvider<'a>)
        ensures
            r.method == method,
            r.credentials == credentials,
            r.default_region == default_region,
            r.url.base@ == "https://"@ + bucket@ + ".s3.amazonaws.com"@,
            r.url.path@ == seq!['/'] + request.object_key@,
            r.url.query@.len() == 0,
    {
        RequestProvider {
            credentials,
            url: to_endpoint(bucket, request.object_key.as_str()),
            method,
            default_region,
        }
    }

    /// Picks the effective region (explicit first, else the default,
    /// else a typed failure), signs, and assembles the finished request:
    /// media type, payload hash and timestamp headers first, the
    /// authorization header last.
    pub fn provide(self, resource: RequestResource) -> (r: Result<InternalRequest, Error>)
        requires
            resource.requested_at.wf(),
        ensures
            spec_provide_post(
                *self.credentials,
                self.url.base@,
                self.url.path@,
                header_views(self.url.query@),
                self.method,
                *self.default_region,
                resource,
                r,
            ),
    {
        let region = match &resource.region {
            Some(rc) => rc.duplicate(),
            None => match self.default_region {
                Some(rc) => rc.duplicate(),
                None => {
                    return Err(Error::RegionNotSpecified);
                },
            },
        };
        let content_type = match &resource.content_type {
            Some(ct) => ct.as_str().to_owned(),
            None => "application/octet-stream".to_owned(),
        };
        let parts = RequestParts::new(
            self.url,
            self.method,
            region,
            resource.hash,
            resource.requested_at,
        );
        let factory = crate::sign::AuthorizationFactory::new(self.credentials, parts);
        let headers = HeaderMap::new();
        let headers = match headers.push("content-type", content_type.as_str()) {
            Ok(h) => h,
            Err(e) => {
                return Err(e);
            },
        };
        let headers = match headers.push(
            "x-amz-content-sha256",
            factory.parts.hashed_payload.as_str(),
        ) {
            Ok(h) => h,
            Err(e) => {
                return Err(e);
            },
        };
        let headers = match headers.push("x-amz-date", factory.amz_date().as_str()) {
            Ok(h) => h,
            Err(e) => {
                return Err(e);
            },
        };
        proof {
            reveal_strlit("content-type");
            reveal_strlit("x-amz-content-sha256");
            reveal_strlit("x-amz-date");
            reveal_strlit("authorization");
            crate::chars::lemma_lower_fixed("content-type"@);
            crate::chars::lemma_lower_fixed("x-amz-content-sha256"@);
            crate::chars::lemma_lower_fixed("x-amz-date"@);
            assert(headers@ =~= spec_base_headers(
                spec_content_type_choice(resource.content_type),
                factory.parts.hashed_payload@,
                crate::time::spec_amz_timestamp(resource.requested_at),
            ));
        }
        let headers = match headers.authorize_with(&factory) {
            Ok(h) => h,
            Err(e) => {
                return Err(e);
            },
        };
        let url = factory.parts.url.render();
        let req = InternalRequest { method: factory.parts.method, url, headers, body: resource.body };
        proof {
            assert(req.headers@ =~= spec_base_headers(
                spec_content_type_choice(resource.content_type),
                resource.hash@,
                crate::time::spec_amz_timestamp(resource.requested_at),
            ).push(
                (
                    "authorization"@,
                    spec_provided_authorization(
                        *self.credentials,
                        self.url.path@,
                        header_views(self.url.query@),
                        self.method,
                        spec_effective_region(resource.region, *self.default_region)->Some_0,
                        resource.hash@,
                        resource.requested_at,
                        spec_base_headers(
                            spec_content_type_choice(resource.content_type),
                            resource.hash@,
                            crate::time::spec_amz_timestamp(resource.requested_at),
                        ),
                    ),
                ),
            ));
        }
        Ok(req)
    }
}

/// The storage client: the credential pair, the target bucket and the
/// configured default region. The credentials are read-only and may be
/// shared across in-flight requests.
pub struct S3Client {
    pub credentials: Credentials,
    pub bucket: S3Bucket,
    pub default_region: Option<RegionCode>,
}

impl S3Client {
    /// Assembles the signed request that writes one object: everything of
    /// the operation except its transport.
    pub fn prepare_put_object(&self, request: &FileRequest, resource: RequestResource) -> (r:
        Result<InternalRequest, Error>)
        requires
            resource.requested_at.wf(),
        ensures
            spec_provide_post(
                self.credentials,
                "https://"@ + self.bucket@ + ".s3.amazonaws.com"@,
                seq!['/'] + request.object_key@,
                Seq::empty(),
                HttpMethod::Put,
                self.default_region,
                resource,
                r,
            ),
    {
        let provider = RequestProvider::new(
            HttpMethod::Put,
            &self.credentials,
            &self.bucket,
            request,
            &self.default_region,
        );
        proof {
            assert(header_views(provider.url.query@) =~= Seq::<(Seq<char>, Seq<char>)>::empty());
        }
        provider.provide(resource)
    }
}

} // verus!
