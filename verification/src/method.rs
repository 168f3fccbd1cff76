//! The closed set of HTTP request methods and its wire-token codec.

use vstd::prelude::*;
use crate::ascii::str_eq;

verus! {

/// An HTTP request method: a closed enumeration with no extension mechanism.
#[derive(Debug, PartialEq, Eq, Structural, Clone, Copy)]
pub enum Method {
    Get,
    Head,
    Post,
    Put,
    Delete,
    Connect,
    Options,
    Trace,
}

/// Error for a token outside the closed method set.
#[derive(Debug, PartialEq, Eq, Structural)]
pub struct InvalidMethodError;

/// The exact wire token of each method.
pub open spec fn method_token(m: Method) -> Seq<char> {
    match m {
        Method::Get => "GET"@,
        Method::Head => "HEAD"@,
        Method::Post => "POST"@,
        Method::Put => "PUT"@,
        Method::Delete => "DELETE"@,
        Method::Connect => "CONNECT"@,
        Method::Options => "OPTIONS"@,
        Method::Trace => "TRACE"@,
    }
}

/// The method a token denotes, if any.  Matching is exact and
/// case-sensitive: no partial matches, no case folding, no whitespace
/// tolerance.
pub open spec fn method_for(s: Seq<char>) -> Option<Method> {
    if s == "GET"@ {
        Some(Method::Get)
    } else if s == "HEAD"@ {
        Some(Method::Head)
    } else if s == "POST"@ {
        Some(Method::Post)
    } else if s == "PUT"@ {
        Some(Method::Put)
    } else if s == "DELETE"@ {
        Some(Method::Delete)
    } else if s == "CONNECT"@ {
        Some(Method::Connect)
    } else if s == "OPTIONS"@ {
        Some(Method::Options)
    } else if s == "TRACE"@ {
        Some(Method::Trace)
    } else {
        None
    }
}

impl Method {
    /// Decodes a wire token into a method, rejecting anything outside the
    /// closed set.
    pub fn try_from(s: &str) -> (r: Result<Self, InvalidMethodError>)
        ensures
            match r {
                Ok(m) => method_for(s@) == Some(m),
                Err(_) => method_for(s@) is None,
            },
    {
        if str_eq(s, "GET") {
            Ok(Method::Get)
        } else if str_eq(s, "HEAD") {
            Ok(Method::Head)
        } else if str_eq(s, "POST") {
            Ok(Method::Post)
        } else if str_eq(s, "PUT") {
            Ok(Method::Put)
        } else if str_eq(s, "DELETE") {
            Ok(Method::Delete)
        } else if str_eq(s, "CONNECT") {
            Ok(Method::Connect)
        } else if str_eq(s, "OPTIONS") {
            Ok(Method::Options)
        } else if str_eq(s, "TRACE") {
            Ok(Method::Trace)
        } else {
            Err(InvalidMethodError)
        }
    }
}

impl InvalidMethodError {
    /// A human-readable description of the error.
    pub fn message(&self) -> (r: String)
        ensures
            r@ == "invalid http method"@,
    {
        String::from_str("invalid http method")
    }
}

/// Law: decoding the token of a method yields that method back, so the
/// codec is a bijection between the closed variant set and its tokens.
pub proof fn lemma_method_token_roundtrip(m: Method)
    ensures
        method_for(method_token(m)) == Some(m),
{
    broadcast use vstd::string::group_string_axioms;

    reveal_strlit("GET");
    reveal_strlit("HEAD");
    reveal_strlit("POST");
    reveal_strlit("PUT");
    reveal_strlit("DELETE");
    reveal_strlit("CONNECT");
    reveal_strlit("OPTIONS");
    reveal_strlit("TRACE");
    match m {
        Method::Get => {
            assert(method_token(m) =~= "GET"@);
        },
        Method::Head => {
            assert(method_token(m) =~= "HEAD"@);
        },
        Method::Post => {
            assert(method_token(m) =~= "POST"@);
            assert("POST"@[0] != "HEAD"@[0]);
        },
        Method::Put => {
            assert(method_token(m) =~= "PUT"@);
            assert("PUT"@[0] != "GET"@[0]);
        },
        Method::Delete => {
            assert(method_token(m) =~= "DELETE"@);
        },
        Method::Connect => {
            assert(method_token(m) =~= "CONNECT"@);
        },
        Method::Options => {
            assert(method_token(m) =~= "OPTIONS"@);
            assert("OPTIONS"@[0] != "CONNECT"@[0]);
        },
        Method::Trace => {
            assert(method_token(m) =~= "TRACE"@);
        },
    }
}

/// Law: distinct methods have distinct wire tokens.
pub proof fn lemma_method_token_injective(m1: Method, m2: Method)
    requires
        method_token(m1) == method_token(m2),
    ensures
        m1 == m2,
{
    lemma_method_token_roundtrip(m1);
    lemma_method_token_roundtrip(m2);
}

} // verus!
