//! Typed errors of the signing core and the request-assembly layer.
//!
//! Each layer wraps a lower failure into its own variant and keeps the
//! original cause as text, so no failure is silently swallowed.
use vstd::prelude::*;

verus! {

/// The operation during which a resource failure occurred.
#[derive(Debug, Clone, Copy, PartialEq, Eq)]
pub enum OperationKind {
    PutObject,
}

/// The failure modes of the signing core and of the request assembly.
#[derive(Debug, Clone, PartialEq, Eq)]
pub enum Error {
    /// A credential or parameter that must be present was absent.
    RequiredValueMissing { name: String },
    /// A resource path does not exist; tagged with the failing operation
    /// and the attempted path.
    FileNotFound { operation: OperationKind, path: String, description: String },
    /// Any other I/O failure.
    GenericIo { description: String },
    /// Neither an explicit region nor a configured default region was
    /// available when resolving a request.
    RegionNotSpecified,
    /// A header value failed wire-format validation.
    InvalidHeaderValue { header: String },
    /// The transport returned a non-success status.
    UpstreamFailure { status: u16, summary: String },
    /// Malformed UTF-8 or a malformed document where structured decoding
    /// was required.
    EncodingError { description: String },
}

impl Error {
    /// A short stable token naming the variant, for diagnostics.
    pub fn kind_token(&self) -> (r: &'static str)
        ensures
            r@ == self.spec_kind_token(),
    {
        let r = match self {
            Error::RequiredValueMissing { .. } => "required value missing",
            Error::FileNotFound { .. } => "file not found",
            Error::GenericIo { .. } => "io error",
            Error::RegionNotSpecified => "region not specified",
            Error::InvalidHeaderValue { .. } => "invalid header value",
            Error::UpstreamFailure { .. } => "upstream failure",
            Error::EncodingError { .. } => "encoding error",
        };
        proof {
            reveal_strlit("required value missing");
            reveal_strlit("file not found");
            reveal_strlit("io error");
            reveal_strlit("region not specified");
            reveal_strlit("invalid header value");
            reveal_strlit("upstream failure");
            reveal_strlit("encoding error");
        }
        r
    }

    /// The token `kind_token` returns for each variant.
    pub open spec fn spec_kind_token(&self) -> Seq<char> {
        match self {
            Error::RequiredValueMissing { .. } => "required value missing"@,
            Error::FileNotFound { .. } => "file not found"@,
            Error::GenericIo { .. } => "io error"@,
            Error::RegionNotSpecified => "region not specified"@,
            Error::InvalidHeaderValue { .. } => "invalid header value"@,
            Error::UpstreamFailure { .. } => "upstream failure"@,
            Error::EncodingError { .. } => "encoding error"@,
        }
    }
}

/// Classifies a failed attempt to open a resource for an operation:
/// a missing path is reported as `FileNotFound` carrying the attempted
/// path, any other failure as `GenericIo`.
pub fn classify_open_failure(
    operation: OperationKind,
    not_found: bool,
    path: &str,
    description: String,
) -> (r: Error)
    ensures
        not_found ==> (r matches Error::FileNotFound {
            operation: op,
            path: p,
            description: d,
        } && op == operation && p@ == path@ && d == description),
        !not_found ==> (r matches Error::GenericIo { description: d } && d == description),
{
    if not_found {
        Error::FileNotFound {
            operation,
            path: path.to_owned(),
            description,
        }
    } else {
        Error::GenericIo { description }
    }
}

} // verus!
