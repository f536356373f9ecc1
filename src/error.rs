//! The errors of parsing and validation.

use crate::text::concat;
use vstd::prelude::*;

verus! {

/// What went wrong while reading a request or building a route.
#[derive(Debug, Clone, PartialEq, Eq)]
pub enum SerwerError {
    RequestBufferReadError,
    InvalidRequestLine(String),
    InvalidMethod(String),
    PathMissingLeadingSlash(String),
    InvalidPathSlashes,
    InvalidPathPart,
    InvalidPathCharacters,
    InvalidQueryParam(String),
    InvalidQueryParamCharacters(String),
    InvalidPathSegmentCharacters(String),
    PathContainsDuplicateParams(String),
    InvalidVersion(String),
    HeaderMissingTailingCRLF(String),
    InvalidHeader(String),
    InvalidHeaderCharacters(String),
    InvalidCookie(String),
    InvalidCookieCharacters(String),
    DecodeError(String),
    IoError(String),
    ParseIntError(String),
    FromUtf8Error(String),
}

/// `label` followed by `detail` in double quotes.
pub open spec fn quoted(label: Seq<char>, detail: Seq<char>) -> Seq<char> {
    label + detail + "\""@
}

/// The human-readable description of an error.
pub open spec fn message(e: SerwerError) -> Seq<char> {
    match e {
        SerwerError::RequestBufferReadError => "Error while reading request buffer"@,
        SerwerError::InvalidRequestLine(s) => quoted("Invalid request line: \""@, s@),
        SerwerError::InvalidMethod(s) => quoted("Invalid method: \""@, s@),
        SerwerError::PathMissingLeadingSlash(s) => quoted("Path missing leading slash: \""@, s@),
        SerwerError::InvalidPathSlashes => "Invalid path slashes"@,
        SerwerError::InvalidPathPart => "Invalid path part"@,
        SerwerError::InvalidPathCharacters => "Invalid path characters"@,
        SerwerError::InvalidQueryParam(s) => quoted("Invalid query param: \""@, s@),
        SerwerError::InvalidQueryParamCharacters(s) => quoted(
            "Invalid query param characters: \""@,
            s@,
        ),
        SerwerError::InvalidPathSegmentCharacters(s) => quoted(
            "Invalid path segment characters: \""@,
            s@,
        ),
        SerwerError::PathContainsDuplicateParams(s) => quoted(
            "Path contains duplicate params: \""@,
            s@,
        ),
        SerwerError::InvalidVersion(s) => quoted("Invalid version: \""@, s@),
        SerwerError::HeaderMissingTailingCRLF(s) => quoted("Header missing tailing CRLF: \""@, s@),
        SerwerError::InvalidHeader(s) => quoted("Invalid header: \""@, s@),
        SerwerError::InvalidHeaderCharacters(s) => quoted("Invalid header characters: \""@, s@),
        SerwerError::InvalidCookie(s) => quoted("Invalid cookie: \""@, s@),
        SerwerError::InvalidCookieCharacters(s) => quoted("Invalid cookie characters: \""@, s@),
        SerwerError::DecodeError(s) => quoted("Decode error: \""@, s@),
        SerwerError::IoError(s) => "IO error: "@ + s@,
        SerwerError::ParseIntError(s) => "Parse int error: "@ + s@,
        SerwerError::FromUtf8Error(s) => "From utf8 error: "@ + s@,
    }
}

fn quote(label: &str, detail: &String) -> (r: String)
    ensures
        r@ == quoted(label@, detail@),
{
    let s = concat(label, detail.as_str());
    concat(s.as_str(), "\"")
}

impl SerwerError {
    /// The human-readable description of this error.
    pub fn to_string(&self) -> (r: String)
        ensures
            r@ == message(*self),
    {
        match self {
            SerwerError::RequestBufferReadError => String::from_str(
                "Error while reading request buffer",
            ),
            SerwerError::InvalidRequestLine(s) => quote("Invalid request line: \"", s),
            SerwerError::InvalidMethod(s) => quote("Invalid method: \"", s),
            SerwerError::PathMissingLeadingSlash(s) => quote("Path missing leading slash: \"", s),
            SerwerError::InvalidPathSlashes => String::from_str("Invalid path slashes"),
            SerwerError::InvalidPathPart => String::from_str("Invalid path part"),
            SerwerError::InvalidPathCharacters => String::from_str("Invalid path characters"),
            SerwerError::InvalidQueryParam(s) => quote("Invalid query param: \"", s),
            SerwerError::InvalidQueryParamCharacters(s) => quote(
                "Invalid query param characters: \"",
                s,
            ),
            SerwerError::InvalidPathSegmentCharacters(s) => quote(
                "Invalid path segment characters: \"",
                s,
            ),
            SerwerError::PathContainsDuplicateParams(s) => quote(
                "Path contains duplicate params: \"",
                s,
            ),
            SerwerError::InvalidVersion(s) => quote("Invalid version: \"", s),
            SerwerError::HeaderMissingTailingCRLF(s) => quote("Header missing tailing CRLF: \"", s),
            SerwerError::InvalidHeader(s) => quote("Invalid header: \"", s),
            SerwerError::InvalidHeaderCharacters(s) => quote("Invalid header characters: \"", s),
            SerwerError::InvalidCookie(s) => quote("Invalid cookie: \"", s),
            SerwerError::InvalidCookieCharacters(s) => quote("Invalid cookie characters: \"", s),
            SerwerError::DecodeError(s) => quote("Decode error: \"", s),
            SerwerError::IoError(s) => concat("IO error: ", s.as_str()),
            SerwerError::ParseIntError(s) => concat("Parse int error: ", s.as_str()),
            SerwerError::FromUtf8Error(s) => concat("From utf8 error: ", s.as_str()),
        }
    }
}

} // verus!
