//! Long-lived signing credentials.
//!
//! A credential pair is immutable once constructed and is built through a
//! typestate builder: `build` exists only once both the access key and the
//! secret key have been supplied, so a partial pair cannot be used.
//! The secret key is never rendered anywhere in this crate except as HMAC
//! key material.
use vstd::prelude::*;

verus! {

/// The public access-key identifier of a credential pair.
#[derive(Debug, Clone, PartialEq, Eq)]
pub struct AccessKey {
    value: String,
}

impl AccessKey {
    pub closed spec fn view(&self) -> Seq<char> {
        self.value@
    }

    pub fn new(value: String) -> (r: AccessKey)
        ensures
            r@ == value@,
    {
        AccessKey { value }
    }

    pub fn as_str(&self) -> (r: &str)
        ensures
            r@ == self@,
    {
        self.value.as_str()
    }

    /// A copy holding the same characters.
    pub fn duplicate(&self) -> (r: AccessKey)
        ensures
            r@ == self@,
    {
        AccessKey { value: self.value.clone() }
    }
}

/// The secret key material of a credential pair.
#[derive(Debug, Clone, PartialEq, Eq)]
pub struct SecretKey {
    value: String,
}

impl SecretKey {
    pub closed spec fn view(&self) -> Seq<char> {
        self.value@
    }

    pub fn new(value: String) -> (r: SecretKey)
        ensures
            r@ == value@,
    {
        SecretKey { value }
    }

    pub fn as_str(&self) -> (r: &str)
        ensures
            r@ == self@,
    {
        self.value.as_str()
    }

    /// A copy holding the same characters.
    pub fn duplicate(&self) -> (r: SecretKey)
        ensures
            r@ == self@,
    {
        SecretKey { value: self.value.clone() }
    }
}

/// An immutable access-key / secret-key pair.
#[derive(Debug, Clone, PartialEq, Eq)]
pub struct Credentials {
    pub access_key: AccessKey,
    pub secret_key: SecretKey,
}

impl Credentials {
    /// Starts a builder with neither key supplied.
    pub fn builder() -> (r: CredentialsBuilder<(), ()>)
        ensures
            r.access_key === (),
            r.secret_key === (),
    {
        CredentialsBuilder { access_key: (), secret_key: () }
    }
}

/// The typestate builder of a credential pair: each field moves from `()`
/// to its value type when supplied, and only the fully supplied builder
/// offers `build`.
pub struct CredentialsBuilder<AccessKeyType, SecretKeyType> {
    pub access_key: AccessKeyType,
    pub secret_key: SecretKeyType,
}

impl CredentialsBuilder<AccessKey, SecretKey> {
    pub fn build(self) -> (r: Credentials)
        ensures
            r.access_key == self.access_key,
            r.secret_key == self.secret_key,
    {
        Credentials { access_key: self.access_key, secret_key: self.secret_key }
    }
}

impl<AccessKeyType, SecretKeyType> CredentialsBuilder<AccessKeyType, SecretKeyType> {
    pub fn access_key(self, access_key: AccessKey) -> (r: CredentialsBuilder<
        AccessKey,
        SecretKeyType,
    >)
        ensures
            r.access_key == access_key,
            r.secret_key == self.secret_key,
    {
        CredentialsBuilder { access_key, secret_key: self.secret_key }
    }

    pub fn secret_key(self, secret_key: SecretKey) -> (r: CredentialsBuilder<
        AccessKeyType,
        SecretKey,
    >)
        ensures
            r.access_key == self.access_key,
            r.secret_key == secret_key,
    {
        CredentialsBuilder { access_key: self.access_key, secret_key }
    }
}

} // verus!
