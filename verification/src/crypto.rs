//! Digest and keyed-digest primitives, and the payload hash.
//!
//! The two raw primitives are outside computations; their results are
//! named by uninterpreted functions so that every contract above them is
//! exact in terms of those names. The payload hash, its "unsigned"
//! sentinel, and the hash-then-rewind discipline over a seekable byte
//! source are verified here.
use vstd::prelude::*;

use crate::hex::{hex_encode, spec_hex};

verus! {

/// The SHA-256 digest of a byte string. The digest is a function of the
/// bytes alone; its value is not stated here.
pub uninterp spec fn sha256_of(data: Seq<u8>) -> Seq<u8>;

/// The HMAC-SHA256 of a message under a key. A function of the key and
/// the message alone; its value is not stated here.
pub uninterp spec fn hmac_sha256_of(key: Seq<u8>, data: Seq<u8>) -> Seq<u8>;

/// Relies on sha2's `Sha256`: the digest of the input bytes, 32 bytes long.
#[verifier::external_body]
pub fn sha256(data: &[u8]) -> (r: Vec<u8>)
    ensures
        r@ == sha256_of(data@),
        r@.len() == 32,
{
    <sha2::Sha256 as sha2::Digest>::digest(data).to_vec()
}

/// Relies on hmac's `Hmac<Sha256>`: the keyed digest of the message under
/// the key, 32 bytes long. HMAC accepts keys of any length.
#[verifier::external_body]
pub fn hmac_sha256(key: &[u8], data: &[u8]) -> (r: Vec<u8>)
    ensures
        r@ == hmac_sha256_of(key@, data@),
        r@.len() == 32,
{
    let mut mac = <hmac::Hmac<sha2::Sha256> as hmac::KeyInit>::new_from_slice(key)
        .expect("HMAC accepts keys of any length");
    hmac::Mac::update(&mut mac, data);
    hmac::Mac::finalize(mac).into_bytes().to_vec()
}

/// The hex rendering of the content digest of a payload.
pub open spec fn spec_payload_hash(data: Seq<u8>) -> Seq<char> {
    spec_hex(sha256_of(data))
}

/// The hex-encoded content digest of a request body, or the reserved
/// sentinel for bodies that are streamed and hashed out of band.
#[derive(Debug, Clone, PartialEq, Eq)]
pub struct HashedPayload {
    value: String,
}

impl HashedPayload {
    /// What this payload hash stands for: either the digest of some byte
    /// string, or the unsigned sentinel.
    pub closed spec fn view(&self) -> Seq<char> {
        self.value@
    }

    /// Hashes an in-memory body: the hex digest of exactly those bytes.
    pub fn from_bytes(data: &Vec<u8>) -> (r: HashedPayload)
        ensures
            r@ == spec_payload_hash(data@),
            r@.len() == 64,
    {
        let digest = sha256(data.as_slice());
        HashedPayload { value: hex_encode(&digest) }
    }

    /// The reserved sentinel marking a payload that is not hashed here.
    pub fn unsigned() -> (r: HashedPayload)
        ensures
            r@ == "UNSIGNED-PAYLOAD"@,
    {
        HashedPayload { value: "UNSIGNED-PAYLOAD".to_owned() }
    }

    pub fn as_str(&self) -> (r: &str)
        ensures
            r@ == self@,
    {
        self.value.as_str()
    }
}

/// Hashing is a function of the content alone: the same bytes always
/// yield the identical hex digest, in this process and in any other.
pub proof fn lemma_payload_hash_deterministic(a: Seq<u8>, b: Seq<u8>)
    requires
        a == b,
    ensures
        spec_payload_hash(a) == spec_payload_hash(b),
{
}

/// An in-memory seekable byte source: the model of a file handle whose
/// read position matters because the same handle is later streamed as a
/// request body.
pub struct ByteSource {
    bytes: Vec<u8>,
    position: usize,
}

impl ByteSource {
    pub closed spec fn spec_bytes(&self) -> Seq<u8> {
        self.bytes@
    }

    pub closed spec fn spec_position(&self) -> int {
        self.position as int
    }

    pub closed spec fn wf(&self) -> bool {
        self.position <= self.bytes@.len()
    }

    /// A fresh source over the given content, positioned at the start.
    pub fn new(bytes: Vec<u8>) -> (r: ByteSource)
        ensures
            r.spec_bytes() == bytes@,
            r.spec_position() == 0,
            r.wf(),
    {
        ByteSource { bytes, position: 0 }
    }

    /// Reads everything from the current position to the end, leaving the
    /// position at the end.
    pub fn read_to_end(&mut self) -> (r: Vec<u8>)
        requires
            old(self).wf(),
        ensures
            r@ == old(self).spec_bytes().skip(old(self).spec_position()),
            final(self).spec_bytes() == old(self).spec_bytes(),
            final(self).spec_position() == old(self).spec_bytes().len(),
            final(self).wf(),
    {
        let mut out: Vec<u8> = Vec::new();
        let mut i: usize = self.position;
        while i < self.bytes.len()
            invariant
                self.position <= i <= self.bytes@.len(),
                out@ == self.spec_bytes().subrange(self.spec_position(), i as int),
            decreases self.bytes@.len() - i,
        {
            out.push(self.bytes[i]);
            proof {
                assert(self.spec_bytes().subrange(self.spec_position(), i + 1)
                    =~= self.spec_bytes().subrange(self.spec_position(), i as int).push(
                    self.spec_bytes()[i as int]));
            }
            i = i + 1;
        }
        self.position = self.bytes.len();
        proof {
            assert(out@ =~= self.spec_bytes().skip(old(self).spec_position()));
        }
        out
    }

    /// Hands the underlying content back, consuming the source.
    pub fn into_inner(self) -> (r: Vec<u8>)
        ensures
            r@ == self.spec_bytes(),
    {
        self.bytes
    }

    /// Moves the read position back to the start.
    pub fn rewind(&mut self)
        ensures
            final(self).spec_bytes() == old(self).spec_bytes(),
            final(self).spec_position() == 0,
            final(self).wf(),
    {
        self.position = 0;
    }
}

impl HashedPayload {
    /// Hashes the full content of a seekable source and restores the read
    /// position to where it started, so that the same source can
    /// subsequently be streamed as the request body.
    pub fn from_source(source: &mut ByteSource) -> (r: HashedPayload)
        requires
            old(source).wf(),
        ensures
            r@ == spec_payload_hash(old(source).spec_bytes()),
            r@.len() == 64,
            final(source).spec_bytes() == old(source).spec_bytes(),
            final(source).spec_position() == old(source).spec_position(),
            final(source).wf(),
    {
        let saved = source.position;
        source.rewind();
        let content = source.read_to_end();
        let hash = HashedPayload::from_bytes(&content);
        source.position = saved;
        proof {
            assert(old(source).spec_bytes().skip(0) =~= old(source).spec_bytes());
        }
        hash
    }
}

} // verus!
