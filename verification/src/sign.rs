//! The signing engine: credential scope, string-to-sign, the HMAC key
//! chain and the final authorization value.
//!
//! A request-scoped signing key is derived from the long-lived secret by
//! four chained keyed digests over date, region, service and the
//! termination tag; the signature is the keyed digest of the
//! string-to-sign under that key, rendered as lowercase hex.
use vstd::prelude::*;

use crate::canonical::{spec_canonical_request, spec_signed_headers, CanonicalRequest};
use crate::credentials::{AccessKey, Credentials, SecretKey};
use crate::crypto::{hmac_sha256, hmac_sha256_of, sha256, sha256_of};
use crate::headers::{HeaderMap, HeaderSeq};
use crate::hex::{hex_encode, spec_hex};
use crate::index::{RegionCode, ServiceCode};
use crate::time::{spec_amz_timestamp, spec_date_stamp, AmzTimestamp, DateStamp, UtcInstant};
use vstd::utf8::encode_utf8;

verus! {

/// The tag of the signing-algorithm family, as it appears in the
/// string-to-sign and in the authorization value.
pub open spec fn spec_algorithm_tag() -> Seq<char> {
    "AWS4-HMAC-SHA256"@
}

/// The fixed literal closing every credential scope.
pub open spec fn spec_termination_tag() -> Seq<char> {
    "aws4_request"@
}

/// The termination tag of a credential scope.
#[derive(Debug, Clone, PartialEq, Eq)]
pub struct ScopeTermination {
    value: String,
}

impl ScopeTermination {
    pub closed spec fn view(&self) -> Seq<char> {
        self.value@
    }

    pub fn new(value: String) -> (r: ScopeTermination)
        ensures
            r@ == value@,
    {
        ScopeTermination { value }
    }

    /// The standard termination tag.
    pub fn aws4_request() -> (r: ScopeTermination)
        ensures
            r@ == spec_termination_tag(),
    {
        ScopeTermination { value: "aws4_request".to_owned() }
    }

    pub fn as_str(&self) -> (r: &str)
        ensures
            r@ == self@,
    {
        self.value.as_str()
    }
}

/// The scope string: date, region, service and termination joined by `/`.
pub open spec fn spec_scope(
    date: Seq<char>,
    region: Seq<char>,
    service: Seq<char>,
    termination: Seq<char>,
) -> Seq<char> {
    date + seq!['/'] + region + seq!['/'] + service + seq!['/'] + termination
}

/// The date/region/service/termination tuple bounding where and when a
/// derived signing key is valid. Immutable; derived once per request.
#[derive(Debug, Clone, PartialEq, Eq)]
pub struct CredentialScope {
    date: DateStamp,
    region: RegionCode,
    service: ServiceCode,
    termination: ScopeTermination,
    raw: String,
}

impl CredentialScope {
    /// The date component, as rendered.
    pub closed spec fn spec_date(&self) -> Seq<char> {
        self.date@
    }

    /// The region token.
    pub closed spec fn spec_region(&self) -> Seq<char> {
        self.region.spec_str()
    }

    /// The service token.
    pub closed spec fn spec_service(&self) -> Seq<char> {
        self.service.spec_str()
    }

    /// The termination tag.
    pub closed spec fn spec_termination(&self) -> Seq<char> {
        self.termination@
    }

    /// The rendered scope string agrees with the four components.
    pub open spec fn wf(&self) -> bool {
        self.spec_str() == spec_scope(
            self.spec_date(),
            self.spec_region(),
            self.spec_service(),
            self.spec_termination(),
        )
    }

    /// The rendered scope string.
    pub closed spec fn spec_str(&self) -> Seq<char> {
        self.raw@
    }

    /// Combines the four components, rendering the scope string once.
    pub fn from(
        date: DateStamp,
        region: RegionCode,
        service: ServiceCode,
        termination: ScopeTermination,
    ) -> (r: CredentialScope)
        ensures
            r.spec_date() == date@,
            r.spec_region() == region.spec_str(),
            r.spec_service() == service.spec_str(),
            r.spec_termination() == termination@,
            r.wf(),
            r.spec_str() == spec_scope(
                date@,
                region.spec_str(),
                service.spec_str(),
                termination@,
            ),
    {
        let mut raw = String::new();
        crate::strings::push_str(&mut raw, date.as_str());
        crate::strings::push_char(&mut raw, '/');
        crate::strings::push_str(&mut raw, region.as_str());
        crate::strings::push_char(&mut raw, '/');
        crate::strings::push_str(&mut raw, service.as_str());
        crate::strings::push_char(&mut raw, '/');
        crate::strings::push_str(&mut raw, termination.as_str());
        proof {
            assert(raw@ =~= spec_scope(
                date@,
                region.spec_str(),
                service.spec_str(),
                termination@,
            ));
        }
        CredentialScope { date, region, service, termination, raw }
    }

    pub fn as_str(&self) -> (r: &str)
        ensures
            r@ == self.spec_str(),
    {
        self.raw.as_str()
    }

    pub fn date(&self) -> (r: &DateStamp)
        ensures
            r@ == self.spec_date(),
    {
        &self.date
    }

    pub fn region(&self) -> (r: &RegionCode)
        ensures
            r.spec_str() == self.spec_region(),
    {
        &self.region
    }

    pub fn service(&self) -> (r: &ServiceCode)
        ensures
            r.spec_str() == self.spec_service(),
    {
        &self.service
    }

    pub fn termination(&self) -> (r: &ScopeTermination)
        ensures
            r@ == self.spec_termination(),
    {
        &self.termination
    }
}

/// The string-to-sign: algorithm tag, timestamp, scope and the hex digest
/// of the canonical request, each on its own line.
pub open spec fn spec_string_to_sign(
    timestamp: Seq<char>,
    scope: Seq<char>,
    canonical_request: Seq<char>,
) -> Seq<char> {
    spec_algorithm_tag() + seq!['\n'] + timestamp + seq!['\n'] + scope + seq!['\n'] + spec_hex(
        sha256_of(encode_utf8(canonical_request)),
    )
}

/// Assembles the string-to-sign of a request.
pub fn string_to_sign(
    timestamp: &AmzTimestamp,
    scope: &CredentialScope,
    canonical_request: &str,
) -> (r: String)
    ensures
        r@ == spec_string_to_sign(timestamp@, scope.spec_str(), canonical_request@),
{
    let digest = sha256(canonical_request.as_bytes());
    let digest_hex = hex_encode(&digest);
    let mut out = String::new();
    crate::strings::push_str(&mut out, "AWS4-HMAC-SHA256");
    crate::strings::push_char(&mut out, '\n');
    crate::strings::push_str(&mut out, timestamp.as_str());
    crate::strings::push_char(&mut out, '\n');
    crate::strings::push_str(&mut out, scope.as_str());
    crate::strings::push_char(&mut out, '\n');
    crate::strings::push_str(&mut out, digest_hex.as_str());
    proof {
        assert(out@ =~= spec_string_to_sign(timestamp@, scope.spec_str(), canonical_request@));
    }
    out
}

/// The request-scoped signing key: chained keyed digests of the date,
/// region, service and termination tag, starting from the prefixed
/// secret.
pub open spec fn spec_signing_key(
    secret: Seq<char>,
    date: Seq<char>,
    region: Seq<char>,
    service: Seq<char>,
    termination: Seq<char>,
) -> Seq<u8> {
    let k0 = encode_utf8("AWS4"@ + secret);
    let k1 = hmac_sha256_of(k0, encode_utf8(date));
    let k2 = hmac_sha256_of(k1, encode_utf8(region));
    let k3 = hmac_sha256_of(k2, encode_utf8(service));
    hmac_sha256_of(k3, encode_utf8(termination))
}

/// Runs the four-step key chain. The key is ephemeral: derived per
/// request, never stored.
pub fn derive_signing_key(secret: &SecretKey, scope: &CredentialScope) -> (r: Vec<u8>)
    requires
        scope.wf(),
    ensures
        r@ == spec_signing_key(
            secret@,
            scope.spec_date(),
            scope.spec_region(),
            scope.spec_service(),
            scope.spec_termination(),
        ),
{
    let mut seed = String::new();
    crate::strings::push_str(&mut seed, "AWS4");
    crate::strings::push_str(&mut seed, secret.as_str());
    let k1 = hmac_sha256(seed.as_str().as_bytes(), scope.date.as_str().as_bytes());
    let k2 = hmac_sha256(k1.as_slice(), scope.region.as_str().as_bytes());
    let k3 = hmac_sha256(k2.as_slice(), scope.service.as_str().as_bytes());
    let k4 = hmac_sha256(k3.as_slice(), scope.termination.as_str().as_bytes());
    proof {
        assert(seed@ =~= "AWS4"@ + secret@);
    }
    k4
}

/// The hex rendering of the keyed digest of the string-to-sign under the
/// signing key.
pub open spec fn spec_signature(key: Seq<u8>, string_to_sign: Seq<char>) -> Seq<char> {
    spec_hex(hmac_sha256_of(key, encode_utf8(string_to_sign)))
}

/// Signs the string-to-sign under the derived key.
pub fn compute_signature(key: &Vec<u8>, sts: &str) -> (r: String)
    ensures
        r@ == spec_signature(key@, sts@),
{
    let mac = hmac_sha256(key.as_slice(), sts.as_bytes());
    hex_encode(&mac)
}

/// The authorization value on the wire: tag, credential, signed headers
/// and signature.
pub open spec fn spec_authorization_value(
    access_key: Seq<char>,
    scope: Seq<char>,
    signed_headers: Seq<char>,
    signature: Seq<char>,
) -> Seq<char> {
    spec_algorithm_tag() + " Credential="@ + access_key + seq!['/'] + scope + ", SignedHeaders="@
        + signed_headers + ", Signature="@ + signature
}

/// A computed authorization value, ready to be attached as a header.
#[derive(Debug, Clone, PartialEq, Eq)]
pub struct Authorization {
    value: String,
}

impl Authorization {
    pub closed spec fn view(&self) -> Seq<char> {
        self.value@
    }

    /// Renders the authorization value of a signed request.
    pub fn from_parts(access_key: &AccessKey, scope: &CredentialScope, signed_headers: &str,
        signature: &str) -> (r: Authorization)
        ensures
            r@ == spec_authorization_value(
                access_key@,
                scope.spec_str(),
                signed_headers@,
                signature@,
            ),
    {
        let mut out = String::new();
        crate::strings::push_str(&mut out, "AWS4-HMAC-SHA256");
        crate::strings::push_str(&mut out, " Credential=");
        crate::strings::push_str(&mut out, access_key.as_str());
        crate::strings::push_char(&mut out, '/');
        crate::strings::push_str(&mut out, scope.as_str());
        crate::strings::push_str(&mut out, ", SignedHeaders=");
        crate::strings::push_str(&mut out, signed_headers);
        crate::strings::push_str(&mut out, ", Signature=");
        crate::strings::push_str(&mut out, signature);
        proof {
            assert(out@ =~= spec_authorization_value(
                access_key@,
                scope.spec_str(),
                signed_headers@,
                signature@,
            ));
        }
        Authorization { value: out }
    }

    /// The value to place under the `authorization` header.
    pub fn to_header_value(&self) -> (r: &str)
        ensures
            r@ == self@,
    {
        self.value.as_str()
    }
}

/// Everything needed to sign one request, captured once: the credential
/// pair, the request timestamp, the scope derived from the same instant,
/// and the canonical-request inputs. Built fresh per request; the key
/// chain is date-dependent, so a factory is never reused across
/// timestamps.
pub struct AuthorizationFactory {
    pub access_key: AccessKey,
    pub secret_key: SecretKey,
    pub timestamp: AmzTimestamp,
    pub scope: CredentialScope,
    pub parts: crate::provider::RequestParts,
}

impl AuthorizationFactory {
    /// Captures credentials and request parts, deriving the timestamp and
    /// the scope from the one request instant: the scope date always
    /// equals the date portion of the request timestamp.
    pub fn new(credentials: &Credentials, parts: crate::provider::RequestParts) -> (r:
        AuthorizationFactory)
        requires
            parts.requested_at.wf(),
        ensures
            r.access_key@ == credentials.access_key@,
            r.secret_key@ == credentials.secret_key@,
            r.timestamp@ == spec_amz_timestamp(parts.requested_at),
            r.scope.wf(),
            r.scope.spec_date() == spec_date_stamp(parts.requested_at),
            r.scope.spec_region() == parts.region.spec_str(),
            r.scope.spec_service() == "s3"@,
            r.scope.spec_termination() == spec_termination_tag(),
            r.timestamp@.take(8) == r.scope.spec_date(),
            r.parts == parts,
    {
        let date = DateStamp::from(&parts.requested_at);
        let timestamp = AmzTimestamp::from(&parts.requested_at);
        let region = parts.region.duplicate();
        let scope = CredentialScope::from(
            date,
            region,
            ServiceCode::S3,
            ScopeTermination::aws4_request(),
        );
        proof {
            crate::time::lemma_timestamp_begins_with_date_stamp(parts.requested_at);
        }
        AuthorizationFactory {
            access_key: credentials.access_key.duplicate(),
            secret_key: credentials.secret_key.duplicate(),
            timestamp,
            scope,
            parts,
        }
    }

    /// The full request timestamp this factory signs under.
    pub fn amz_date(&self) -> (r: &AmzTimestamp)
        ensures
            r@ == self.timestamp@,
    {
        &self.timestamp
    }

    /// The authorization value `create` produces for the given headers:
    /// the exact composition of canonicalization, string-to-sign, key
    /// chain and signature.
    pub open spec fn spec_created_value(&self, headers: HeaderSeq) -> Seq<char> {
        spec_authorization_value(
            self.access_key@,
            self.scope.spec_str(),
            spec_signed_headers(headers),
            spec_signature(
                spec_signing_key(
                    self.secret_key@,
                    self.scope.spec_date(),
                    self.scope.spec_region(),
                    self.scope.spec_service(),
                    self.scope.spec_termination(),
                ),
                spec_string_to_sign(
                    self.timestamp@,
                    self.scope.spec_str(),
                    spec_canonical_request(
                        self.parts.method.spec_str(),
                        self.parts.url.path@,
                        crate::headers::header_views(self.parts.url.query@),
                        headers,
                        self.parts.hashed_payload@,
                    ),
                ),
            ),
        )
    }

    /// Runs the whole signing pipeline over the headers that will be
    /// sent: canonical request, string-to-sign, key chain, signature,
    /// and the rendered authorization value. The signed-header set used
    /// for canonicalization is by construction the set rendered into the
    /// value.
    pub fn create(&self, headers: &HeaderMap) -> (r: Authorization)
        requires
            self.scope.wf(),
        ensures
            r@ == self.spec_created_value(headers@),
    {
        let canonical = CanonicalRequest::from_parts(
            self.parts.method.as_str(),
            self.parts.url.path.as_str(),
            &self.parts.url.query,
            headers,
            &self.parts.hashed_payload,
        );
        let sts = string_to_sign(&self.timestamp, &self.scope, canonical.text());
        let key = derive_signing_key(&self.secret_key, &self.scope);
        let signature = compute_signature(&key, sts.as_str());
        Authorization::from_parts(
            &self.access_key,
            &self.scope,
            canonical.signed_headers(),
            signature.as_str(),
        )
    }
}

impl HeaderMap {
    /// Signs the headers collected so far and attaches the result under
    /// the `authorization` name, which is inserted last.
    pub fn authorize_with(self, factory: &AuthorizationFactory) -> (r: Result<HeaderMap,
        crate::error::Error>)
        requires
            self.wf(),
            factory.scope.wf(),
        ensures
            crate::headers::spec_valid_value(factory.spec_created_value(self@)) ==> (r matches Ok(h)
                && h@ == crate::headers::spec_insert(
                self@,
                "authorization"@,
                factory.spec_created_value(self@),
            ) && h.wf()),
            !crate::headers::spec_valid_value(factory.spec_created_value(self@)) ==> (r matches Err(
                e,
            ) && e matches crate::error::Error::InvalidHeaderValue { header: n }
                && n@ == "authorization"@),
    {
        let authorization = factory.create(&self);
        let r = self.push("authorization", authorization.to_header_value());
        proof {
            reveal_strlit("authorization");
            crate::chars::lemma_lower_fixed("authorization"@);
        }
        r
    }
}

} // verus!
