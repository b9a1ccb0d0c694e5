//! The closed set of HTTP verbs and their case-sensitive text forms.

use vstd::prelude::*;

use crate::text::str_eq;

verus! {

broadcast use vstd::string::group_string_axioms;

/// An HTTP verb. The set is closed: a request line carrying any other token
/// is rejected during parsing.
#[derive(Clone, Copy, Debug, PartialEq, Eq, Structural)]
pub enum Method {
    GET,
    POST,
    DELETE,
    PUT,
    HEAD,
    CONNECT,
    OPTIONS,
    TRACE,
    PATCH,
}

/// A token that is not one of the recognized verb spellings.
#[derive(Clone, Copy, Debug, PartialEq, Eq, Structural)]
pub struct MethodError;

/// The exact wire spelling of each verb.
pub open spec fn spec_token(m: Method) -> Seq<char> {
    match m {
        Method::GET => "GET"@,
        Method::POST => "POST"@,
        Method::DELETE => "DELETE"@,
        Method::PUT => "PUT"@,
        Method::HEAD => "HEAD"@,
        Method::CONNECT => "CONNECT"@,
        Method::OPTIONS => "OPTIONS"@,
        Method::TRACE => "TRACE"@,
        Method::PATCH => "PATCH"@,
    }
}

/// The verb a token denotes, if it matches one of the spellings exactly
/// (case-sensitive, no trimming).
pub open spec fn spec_method_of(t: Seq<char>) -> Option<Method> {
    if t == "GET"@ {
        Some(Method::GET)
    } else if t == "POST"@ {
        Some(Method::POST)
    } else if t == "DELETE"@ {
        Some(Method::DELETE)
    } else if t == "PUT"@ {
        Some(Method::PUT)
    } else if t == "HEAD"@ {
        Some(Method::HEAD)
    } else if t == "CONNECT"@ {
        Some(Method::CONNECT)
    } else if t == "OPTIONS"@ {
        Some(Method::OPTIONS)
    } else if t == "TRACE"@ {
        Some(Method::TRACE)
    } else if t == "PATCH"@ {
        Some(Method::PATCH)
    } else {
        None
    }
}

impl Method {
    /// Parse a verb token. Succeeds exactly on the nine recognized
    /// spellings and returns the matching verb.
    pub fn parse(s: &str) -> (r: Result<Method, MethodError>)
        ensures
            match spec_method_of(s@) {
                Some(m) => r == Ok::<Method, MethodError>(m),
                None => r == Err::<Method, MethodError>(MethodError),
            },
    {
        if str_eq(s, "GET") {
            Ok(Method::GET)
        } else if str_eq(s, "POST") {
            Ok(Method::POST)
        } else if str_eq(s, "DELETE") {
            Ok(Method::DELETE)
        } else if str_eq(s, "PUT") {
            Ok(Method::PUT)
        } else if str_eq(s, "HEAD") {
            Ok(Method::HEAD)
        } else if str_eq(s, "CONNECT") {
            Ok(Method::CONNECT)
        } else if str_eq(s, "OPTIONS") {
            Ok(Method::OPTIONS)
        } else if str_eq(s, "TRACE") {
            Ok(Method::TRACE)
        } else if str_eq(s, "PATCH") {
            Ok(Method::PATCH)
        } else {
            Err(MethodError)
        }
    }
}

/// Each verb's spelling parses back to that verb: the spellings are
/// pairwise distinct, so the token form identifies the verb uniquely.
pub proof fn lemma_token_round_trip(m: Method)
    ensures
        spec_method_of(spec_token(m)) == Some(m),
{
    reveal_strlit("GET");
    reveal_strlit("POST");
    reveal_strlit("DELETE");
    reveal_strlit("PUT");
    reveal_strlit("HEAD");
    reveal_strlit("CONNECT");
    reveal_strlit("OPTIONS");
    reveal_strlit("TRACE");
    reveal_strlit("PATCH");
    assert("GET"@.len() == 3 && "GET"@[0] == 'G');
    assert("POST"@.len() == 4 && "POST"@[0] == 'P');
    assert("DELETE"@.len() == 6 && "DELETE"@[0] == 'D');
    assert("PUT"@.len() == 3 && "PUT"@[0] == 'P');
    assert("HEAD"@.len() == 4 && "HEAD"@[0] == 'H');
    assert("CONNECT"@.len() == 7 && "CONNECT"@[0] == 'C');
    assert("OPTIONS"@.len() == 7 && "OPTIONS"@[0] == 'O');
    assert("TRACE"@.len() == 5 && "TRACE"@[0] == 'T');
    assert("PATCH"@.len() == 5 && "PATCH"@[0] == 'P');
}

} // verus!
