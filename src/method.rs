//! Request methods.

use crate::error::SerwerError;
use crate::text::same_text;
use vstd::prelude::*;

verus! {

/// A request method; `ALL` stands for any method in a route.
#[derive(Debug, Clone, Copy, PartialEq, Eq, Structural)]
pub enum Method {
    ALL,
    GET,
    HEAD,
    POST,
    PUT,
    DELETE,
    CONNECT,
    OPTIONS,
    TRACE,
    PATCH,
}

/// The wire token of a method.
pub open spec fn method_name(m: Method) -> Seq<char> {
    match m {
        Method::ALL => "ALL"@,
        Method::GET => "GET"@,
        Method::HEAD => "HEAD"@,
        Method::POST => "POST"@,
        Method::PUT => "PUT"@,
        Method::DELETE => "DELETE"@,
        Method::CONNECT => "CONNECT"@,
        Method::OPTIONS => "OPTIONS"@,
        Method::TRACE => "TRACE"@,
        Method::PATCH => "PATCH"@,
    }
}

/// The method whose token is `s`, if any.
pub open spec fn method_from(s: Seq<char>) -> Option<Method> {
    if s == "ALL"@ {
        Some(Method::ALL)
    } else if s == "GET"@ {
        Some(Method::GET)
    } else if s == "HEAD"@ {
        Some(Method::HEAD)
    } else if s == "POST"@ {
        Some(Method::POST)
    } else if s == "PUT"@ {
        Some(Method::PUT)
    } else if s == "DELETE"@ {
        Some(Method::DELETE)
    } else if s == "CONNECT"@ {
        Some(Method::CONNECT)
    } else if s == "OPTIONS"@ {
        Some(Method::OPTIONS)
    } else if s == "TRACE"@ {
        Some(Method::TRACE)
    } else if s == "PATCH"@ {
        Some(Method::PATCH)
    } else {
        None
    }
}

impl Method {
    /// Reads a method token; an unknown token is an `InvalidMethod` error carrying it.
    pub fn from_string(string: &str) -> (r: Result<Method, SerwerError>)
        ensures
            match method_from(string@) {
                Some(m) => r == Ok::<Method, SerwerError>(m),
                None => r matches Err(SerwerError::InvalidMethod(e)) && e@ == string@,
            },
    {
        if same_text(string, "ALL") {
            Ok(Method::ALL)
        } else if same_text(string, "GET") {
            Ok(Method::GET)
        } else if same_text(string, "HEAD") {
            Ok(Method::HEAD)
        } else if same_text(string, "POST") {
            Ok(Method::POST)
        } else if same_text(string, "PUT") {
            Ok(Method::PUT)
        } else if same_text(string, "DELETE") {
            Ok(Method::DELETE)
        } else if same_text(string, "CONNECT") {
            Ok(Method::CONNECT)
        } else if same_text(string, "OPTIONS") {
            Ok(Method::OPTIONS)
        } else if same_text(string, "TRACE") {
            Ok(Method::TRACE)
        } else if same_text(string, "PATCH") {
            Ok(Method::PATCH)
        } else {
            Err(SerwerError::InvalidMethod(String::from_str(string)))
        }
    }

    /// The wire token of this method.
    pub fn to_string(&self) -> (r: String)
        ensures
            r@ == method_name(*self),
    {
        let t: &str = match self {
            Method::ALL => "ALL",
            Method::GET => "GET",
            Method::HEAD => "HEAD",
            Method::POST => "POST",
            Method::PUT => "PUT",
            Method::DELETE => "DELETE",
            Method::CONNECT => "CONNECT",
            Method::OPTIONS => "OPTIONS",
            Method::TRACE => "TRACE",
            Method::PATCH => "PATCH",
        };
        String::from_str(t)
    }
}

/// Reading back the token of a method gives that method.
pub proof fn lemma_method_round_trip(m: Method)
    ensures
        method_from(method_name(m)) == Some(m),
{
    reveal_strlit("ALL");
    assert("ALL"@.len() == 3 && "ALL"@[0] == 'A');
    reveal_strlit("GET");
    assert("GET"@.len() == 3 && "GET"@[0] == 'G');
    reveal_strlit("HEAD");
    assert("HEAD"@.len() == 4 && "HEAD"@[0] == 'H');
    reveal_strlit("POST");
    assert("POST"@.len() == 4 && "POST"@[0] == 'P');
    reveal_strlit("PUT");
    assert("PUT"@.len() == 3 && "PUT"@[0] == 'P');
    reveal_strlit("DELETE");
    assert("DELETE"@.len() == 6 && "DELETE"@[0] == 'D');
    reveal_strlit("CONNECT");
    assert("CONNECT"@.len() == 7 && "CONNECT"@[0] == 'C');
    reveal_strlit("OPTIONS");
    assert("OPTIONS"@.len() == 7 && "OPTIONS"@[0] == 'O');
    reveal_strlit("TRACE");
    assert("TRACE"@.len() == 5 && "TRACE"@[0] == 'T');
    reveal_strlit("PATCH");
    assert("PATCH"@.len() == 5 && "PATCH"@[0] == 'P');
}

} // verus!
