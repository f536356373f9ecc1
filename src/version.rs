//! Protocol versions.

use crate::error::SerwerError;
use crate::text::same_text;
use vstd::prelude::*;

verus! {

/// A protocol version token.
#[allow(non_camel_case_types)]
#[derive(Debug, Clone, Copy, PartialEq, Eq, Structural)]
pub enum Version {
    HTTP_0_9,
    HTTP_1_0,
    HTTP_1_1,
    HTTP_2,
    HTTP_3,
}

/// The wire token of a version.
pub open spec fn version_name(v: Version) -> Seq<char> {
    match v {
        Version::HTTP_0_9 => "HTTP/0.9"@,
        Version::HTTP_1_0 => "HTTP/1.0"@,
        Version::HTTP_1_1 => "HTTP/1.1"@,
        Version::HTTP_2 => "HTTP/2"@,
        Version::HTTP_3 => "HTTP/3"@,
    }
}

/// The version whose token is `s`, if any.
pub open spec fn version_from(s: Seq<char>) -> Option<Version> {
    if s == "HTTP/0.9"@ {
        Some(Version::HTTP_0_9)
    } else if s == "HTTP/1.0"@ {
        Some(Version::HTTP_1_0)
    } else if s == "HTTP/1.1"@ {
        Some(Version::HTTP_1_1)
    } else if s == "HTTP/2"@ {
        Some(Version::HTTP_2)
    } else if s == "HTTP/3"@ {
        Some(Version::HTTP_3)
    } else {
        None
    }
}

impl Version {
    /// Reads a version token; an unknown token is an `InvalidVersion` error carrying it.
    pub fn from_string(string: &str) -> (r: Result<Version, SerwerError>)
        ensures
            match version_from(string@) {
                Some(v) => r == Ok::<Version, SerwerError>(v),
                None => r matches Err(SerwerError::InvalidVersion(e)) && e@ == string@,
            },
    {
        if same_text(string, "HTTP/0.9") {
            Ok(Version::HTTP_0_9)
        } else if same_text(string, "HTTP/1.0") {
            Ok(Version::HTTP_1_0)
        } else if same_text(string, "HTTP/1.1") {
            Ok(Version::HTTP_1_1)
        } else if same_text(string, "HTTP/2") {
            Ok(Version::HTTP_2)
        } else if same_text(string, "HTTP/3") {
            Ok(Version::HTTP_3)
        } else {
            Err(SerwerError::InvalidVersion(String::from_str(string)))
        }
    }

    /// The wire token of this version.
    pub fn to_string(&self) -> (r: String)
        ensures
            r@ == version_name(*self),
    {
        let t: &str = match self {
            Version::HTTP_0_9 => "HTTP/0.9",
            Version::HTTP_1_0 => "HTTP/1.0",
            Version::HTTP_1_1 => "HTTP/1.1",
            Version::HTTP_2 => "HTTP/2",
            Version::HTTP_3 => "HTTP/3",
        };
        String::from_str(t)
    }
}

/// Reading back the token of a version gives that version.
pub proof fn lemma_version_round_trip(v: Version)
    ensures
        version_from(version_name(v)) == Some(v),
{
    reveal_strlit("HTTP/0.9");
    assert("HTTP/0.9"@.len() == 8 && "HTTP/0.9"@[5] == '0' && "HTTP/0.9"@[7] == '9');
    reveal_strlit("HTTP/1.0");
    assert("HTTP/1.0"@.len() == 8 && "HTTP/1.0"@[5] == '1' && "HTTP/1.0"@[7] == '0');
    reveal_strlit("HTTP/1.1");
    assert("HTTP/1.1"@.len() == 8 && "HTTP/1.1"@[5] == '1' && "HTTP/1.1"@[7] == '1');
    reveal_strlit("HTTP/2");
    assert("HTTP/2"@.len() == 6 && "HTTP/2"@[5] == '2');
    reveal_strlit("HTTP/3");
    assert("HTTP/3"@.len() == 6 && "HTTP/3"@[5] == '3');
}

} // verus!
