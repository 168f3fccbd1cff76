//! The closed set of HTTP version tokens and its wire-token codec.

use vstd::prelude::*;
use crate::ascii::str_eq;

verus! {

/// An HTTP version token.  Only `OneOne` has implemented wire semantics;
/// `Two` and `Three` are recognized as valid tokens but the rest of the
/// library does not adapt its framing for them.
#[derive(Debug, PartialEq, Eq, Structural, Clone, Copy)]
pub enum Version {
    OneOne,
    Two,
    Three,
}

/// Error for a token outside the closed version set.
#[derive(Debug, PartialEq, Eq, Structural)]
pub struct InvalidVersionError;

/// The exact wire token of each version.
pub open spec fn version_token(v: Version) -> Seq<char> {
    match v {
        Version::OneOne => "HTTP/1.1"@,
        Version::Two => "HTTP/2.0"@,
        Version::Three => "HTTP/3.0"@,
    }
}

/// The version a token denotes, if any.  Matching is exact and
/// case-sensitive.
pub open spec fn version_for(s: Seq<char>) -> Option<Version> {
    if s == "HTTP/1.1"@ {
        Some(Version::OneOne)
    } else if s == "HTTP/2.0"@ {
        Some(Version::Two)
    } else if s == "HTTP/3.0"@ {
        Some(Version::Three)
    } else {
        None
    }
}

impl Version {
    /// Encodes the version as its exact wire token; a total, infallible
    /// inverse of `try_from`.
    pub fn to_string(self) -> (r: String)
        ensures
            r@ == version_token(self),
    {
        match self {
            Version::OneOne => String::from_str("HTTP/1.1"),
            Version::Two => String::from_str("HTTP/2.0"),
            Version::Three => String::from_str("HTTP/3.0"),
        }
    }

    /// Decodes a wire token into a version, rejecting anything outside the
    /// closed set.
    pub fn try_from(s: &str) -> (r: Result<Self, InvalidVersionError>)
        ensures
            match r {
                Ok(v) => version_for(s@) == Some(v),
                Err(_) => version_for(s@) is None,
            },
    {
        if str_eq(s, "HTTP/1.1") {
            Ok(Version::OneOne)
        } else if str_eq(s, "HTTP/2.0") {
            Ok(Version::Two)
        } else if str_eq(s, "HTTP/3.0") {
            Ok(Version::Three)
        } else {
            Err(InvalidVersionError)
        }
    }
}

impl InvalidVersionError {
    /// A human-readable description of the error.
    pub fn message(&self) -> (r: String)
        ensures
            r@ == "invalid http version"@,
    {
        String::from_str("invalid http version")
    }
}

/// Law: decoding the token of a version yields that version back, so the
/// codec is a bijection between the closed variant set and its tokens.
pub proof fn lemma_version_token_roundtrip(v: Version)
    ensures
        version_for(version_token(v)) == Some(v),
{
    broadcast use vstd::string::group_string_axioms;

    reveal_strlit("HTTP/1.1");
    reveal_strlit("HTTP/2.0");
    reveal_strlit("HTTP/3.0");
    match v {
        Version::OneOne => {
            assert(version_token(v) =~= "HTTP/1.1"@);
        },
        Version::Two => {
            assert(version_token(v) =~= "HTTP/2.0"@);
            assert("HTTP/2.0"@[5] != "HTTP/1.1"@[5]);
        },
        Version::Three => {
            assert(version_token(v) =~= "HTTP/3.0"@);
            assert("HTTP/3.0"@[5] != "HTTP/1.1"@[5]);
            assert("HTTP/3.0"@[5] != "HTTP/2.0"@[5]);
        },
    }
}

/// Law: distinct versions have distinct wire tokens.
pub proof fn lemma_version_token_injective(v1: Version, v2: Version)
    requires
        version_token(v1) == version_token(v2),
    ensures
        v1 == v2,
{
    lemma_version_token_roundtrip(v1);
    lemma_version_token_roundtrip(v2);
}

} // verus!
