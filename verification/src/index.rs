//! Canonical string codes for the target region and service.
//!
//! Both are value types over a lowercase token. Known codes are carried
//! as their own variants; an unknown token is preserved as supplied (after
//! case normalization), so new regions and services need no code change.
use vstd::prelude::*;

use crate::chars::{lower_string, spec_lower, str_eq};

verus! {

/// The region a request is addressed to.
#[derive(Debug, Clone, PartialEq, Eq)]
pub enum RegionCode {
    UsEast1,
    ApNortheast1,
    Unknown(String),
}

impl RegionCode {
    /// The canonical token of this region code.
    pub open spec fn spec_str(&self) -> Seq<char> {
        match self {
            RegionCode::UsEast1 => "us-east-1"@,
            RegionCode::ApNortheast1 => "ap-northeast-1"@,
            RegionCode::Unknown(code) => code@,
        }
    }

    /// Normalizes a caller-supplied token to lowercase and classifies it.
    pub fn new(code: &str) -> (r: RegionCode)
        ensures
            r.spec_str() == spec_lower(code@),
    {
        let low = lower_string(code);
        if str_eq(low.as_str(), "us-east-1") {
            RegionCode::UsEast1
        } else if str_eq(low.as_str(), "ap-northeast-1") {
            RegionCode::ApNortheast1
        } else {
            RegionCode::Unknown(low)
        }
    }

    /// A copy holding the same token.
    pub fn duplicate(&self) -> (r: RegionCode)
        ensures
            r.spec_str() == self.spec_str(),
    {
        match self {
            RegionCode::UsEast1 => RegionCode::UsEast1,
            RegionCode::ApNortheast1 => RegionCode::ApNortheast1,
            RegionCode::Unknown(code) => RegionCode::Unknown(code.clone()),
        }
    }

    pub fn as_str(&self) -> (r: &str)
        ensures
            r@ == self.spec_str(),
    {
        match self {
            RegionCode::UsEast1 => {
                proof {
                    reveal_strlit("us-east-1");
                }
                "us-east-1"
            },
            RegionCode::ApNortheast1 => {
                proof {
                    reveal_strlit("ap-northeast-1");
                }
                "ap-northeast-1"
            },
            RegionCode::Unknown(code) => code.as_str(),
        }
    }
}

/// The service a request is addressed to.
#[derive(Debug, Clone, PartialEq, Eq)]
pub enum ServiceCode {
    Iam,
    S3,
    Unknown(String),
}

impl ServiceCode {
    /// The canonical token of this service code.
    pub open spec fn spec_str(&self) -> Seq<char> {
        match self {
            ServiceCode::Iam => "iam"@,
            ServiceCode::S3 => "s3"@,
            ServiceCode::Unknown(code) => code@,
        }
    }

    pub fn as_str(&self) -> (r: &str)
        ensures
            r@ == self.spec_str(),
    {
        match self {
            ServiceCode::Iam => {
                proof {
                    reveal_strlit("iam");
                }
                "iam"
            },
            ServiceCode::S3 => {
                proof {
                    reveal_strlit("s3");
                }
                "s3"
            },
            ServiceCode::Unknown(code) => code.as_str(),
        }
    }
}

} // verus!
