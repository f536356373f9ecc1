//! Requests: parsed from the bytes of a connection.

use crate::cookie::{cookie_result, Cookie, CookieView};
use crate::cookies::{cookies_outcome, Cookies};
use crate::error::SerwerError;
use crate::headers::{canonical, header_line, HeaderLine, Headers};
use crate::method::{method_from, Method};
use crate::params::Params;
use crate::path::{lemma_path_accepted, path_accepted, path_result, Path};
use crate::text::{
    chars_of, ends_with_crlf, parse_usize, read_line, single, slice_chars,
    split, split_exec, string_from_utf8, string_of, strip_crlf, utf8_error_text, line_end,
};
use crate::version::{version_from, Version};
use vstd::prelude::*;
use vstd::utf8::{decode_utf8, valid_utf8};

verus! {

/// A parsed request.
#[derive(Debug, Clone)]
pub struct Request {
    method: Method,
    path: Path,
    version: Version,
    headers: Headers,
    cookies: Cookies,
    body: Vec<u8>,
    params: Params,
}

/// What a request holds.
pub struct RequestView {
    pub method: Method,
    pub path: Path,
    pub version: Version,
    pub headers: Map<Seq<char>, Seq<char>>,
    pub cookies: Map<Seq<char>, CookieView>,
    pub body: Seq<u8>,
    pub params: Map<Seq<char>, Seq<char>>,
}

impl View for Request {
    type V = RequestView;

    closed spec fn view(&self) -> RequestView {
        RequestView {
            method: self.method,
            path: self.path,
            version: self.version,
            headers: self.headers@,
            cookies: self.cookies@,
            body: self.body@,
            params: self.params@,
        }
    }
}

/// The text that the bytes of a line encode, when they are UTF-8.
pub open spec fn line_text(bytes: Seq<u8>) -> Option<Seq<char>> {
    if valid_utf8(bytes) {
        Some(decode_utf8(bytes))
    } else {
        None
    }
}

/// The message of a line that is not UTF-8.
pub open spec fn not_utf8_message() -> Seq<char> {
    "stream did not contain valid UTF-8"@
}

/// Why the header section is refused.
pub enum HeadFault {
    NotUtf8,
    /// A line without its final CRLF; carries the line.
    MissingCrlf(Seq<char>),
    /// A header line that does not read; carries it without its CRLF.
    Line(Seq<char>),
}

/// The headers read from the lines starting at `pos` up to an empty line,
/// added to `acc`, and where the body starts.
pub open spec fn header_section(b: Seq<u8>, pos: int, acc: Map<Seq<char>, Seq<char>>) -> Result<
    (Map<Seq<char>, Seq<char>>, int),
    HeadFault,
>
    decreases b.len() - pos,
{
    let next = line_end(b, pos);
    match line_text(b.subrange(pos, next)) {
        None => Err(HeadFault::NotUtf8),
        Some(t) => if !ends_with_crlf(t) {
            Err(HeadFault::MissingCrlf(t))
        } else if strip_crlf(t).len() == 0 {
            Ok((acc, next))
        } else {
            match header_line(strip_crlf(t)) {
                HeaderLine::Field(n, v) => if pos < next <= b.len() {
                    header_section(b, next, acc.insert(n, v))
                } else {
                    Err(HeadFault::NotUtf8)
                },
                _ => Err(HeadFault::Line(strip_crlf(t))),
            }
        },
    }
}

/// The error `e` reports the fault `f`.
pub open spec fn reports_head_fault(e: SerwerError, f: HeadFault) -> bool {
    match f {
        HeadFault::NotUtf8 => e matches SerwerError::IoError(x) && x@ == not_utf8_message(),
        HeadFault::MissingCrlf(t) => e matches SerwerError::HeaderMissingTailingCRLF(x) && x@ == t,
        HeadFault::Line(h) => match header_line(h) {
            HeaderLine::Characters => e matches SerwerError::InvalidHeaderCharacters(x) && x@ == h,
            _ => e matches SerwerError::InvalidHeader(x) && x@ == h,
        },
    }
}

/// The `Cookie` header's value, or nothing.
pub open spec fn cookie_text(headers: Map<Seq<char>, Seq<char>>) -> Seq<char> {
    if headers.contains_key(canonical("Cookie"@)) {
        headers[canonical("Cookie"@)]
    } else {
        seq![]
    }
}

/// The body length that the `Content-Length` header gives: 0 when it is
/// missing or not a number.
pub open spec fn content_length(headers: Map<Seq<char>, Seq<char>>) -> usize {
    if headers.contains_key(canonical("Content-Length"@)) {
        match parse_usize(headers[canonical("Content-Length"@)]) {
            Some(n) => n,
            None => 0,
        }
    } else {
        0
    }
}

/// The tokens of a request line without its CRLF.
pub open spec fn line_tokens(line: Seq<char>) -> Seq<Seq<char>> {
    split(line, seq![' '])
}

/// How the request line (text with its CRLF) reads, as `parse_request_line` answers it.
pub open spec fn request_line_result(t: Seq<char>, r: Result<(Method, Path, Version), SerwerError>) -> bool {
    let line = strip_crlf(t);
    let toks = line_tokens(line);
    if !ends_with_crlf(t) {
        r matches Err(SerwerError::InvalidRequestLine(e)) && e@ == t
    } else if toks.len() != 2 && toks.len() != 3 {
        r matches Err(SerwerError::InvalidRequestLine(e)) && e@ == line
    } else if method_from(toks[0]) is None {
        r matches Err(SerwerError::InvalidMethod(e)) && e@ == toks[0]
    } else if !path_accepted(toks[1]) {
        r is Err && path_result(toks[1], Err(r->Err_0))
    } else if toks.len() == 3 && version_from(toks[2]) is None {
        r matches Err(SerwerError::InvalidVersion(e)) && e@ == toks[2]
    } else {
        r matches Ok(x) && x.0 == method_from(toks[0])->Some_0 && path_result(toks[1], Ok(x.1))
            && x.2 == if toks.len() == 3 {
            version_from(toks[2])->Some_0
        } else {
            Version::HTTP_0_9
        }
    }
}

/// The request line (text with its CRLF) reads without error.
pub open spec fn request_line_ok(t: Seq<char>) -> bool {
    let toks = line_tokens(strip_crlf(t));
    &&& ends_with_crlf(t)
    &&& toks.len() == 2 || toks.len() == 3
    &&& method_from(toks[0]) is Some
    &&& path_accepted(toks[1])
    &&& toks.len() == 3 ==> version_from(toks[2]) is Some
}

/// How `from_bytes` answers the bytes `b` of a connection.
pub open spec fn request_result(b: Seq<u8>, r: Result<Request, SerwerError>) -> bool {
    let line_end_at = line_end(b, 0);
    match line_text(b.subrange(0, line_end_at)) {
        None => r matches Err(SerwerError::IoError(e)) && e@ == not_utf8_message(),
        Some(t) => if !request_line_ok(t) {
            r is Err && request_line_result(t, Err(r->Err_0))
        } else {
            match header_section(b, line_end_at, Map::empty()) {
                Err(f) => r is Err && reports_head_fault(r->Err_0, f),
                Ok(hs) => match cookies_outcome(cookie_text(hs.0)) {
                    Err(part) => r is Err && cookie_result(part, Err(r->Err_0)),
                    Ok(cm) => if hs.1 + content_length(hs.0) > b.len() {
                        r matches Err(SerwerError::RequestBufferReadError)
                    } else {
                        r matches Ok(req) && req.wf() && request_line_result(
                            t,
                            Ok((req@.method, req@.path, req@.version)),
                        ) && req@.headers == hs.0 && req@.cookies == cm && req@.body == b.subrange(
                            hs.1,
                            hs.1 + content_length(hs.0),
                        ) && req@.params == Map::<Seq<char>, Seq<char>>::empty()
                    },
                },
            }
        },
    }
}

fn line_string(bytes: Vec<u8>) -> (r: Result<String, SerwerError>)
    ensures
        match line_text(bytes@) {
            Some(t) => r matches Ok(s) && s@ == t,
            None => r matches Err(SerwerError::IoError(e)) && e@ == not_utf8_message(),
        },
{
    match string_from_utf8(bytes) {
        Ok(s) => Ok(s),
        Err(_) => Err(SerwerError::IoError(String::from_str("stream did not contain valid UTF-8"))),
    }
}

/// Reads a request line (with its CRLF): method, path and, but for
/// HTTP/0.9, version, separated by single spaces.
pub fn parse_request_line(t: &Vec<char>) -> (r: Result<(Method, Path, Version), SerwerError>)
    ensures
        request_line_result(t@, r),
        r is Ok <==> request_line_ok(t@),
{
    let n = t.len();
    if !(n >= 2 && t[n - 2] == '\r' && t[n - 1] == '\n') {
        return Err(SerwerError::InvalidRequestLine(string_of(t.as_slice())));
    }
    let line = slice_chars(t, 0, n - 2);
    let space = single(' ');
    let toks = split_exec(&line, space.as_slice());
    if toks.len() != 2 && toks.len() != 3 {
        return Err(SerwerError::InvalidRequestLine(string_of(line.as_slice())));
    }
    let method_text = string_of(toks[0].as_slice());
    let method = match Method::from_string(method_text.as_str()) {
        Ok(m) => m,
        Err(e) => return Err(e),
    };
    let path_text = string_of(toks[1].as_slice());
    let path = match Path::from_string(path_text.as_str()) {
        Ok(p) => p,
        Err(e) => {
            proof {
                lemma_path_accepted(path_text@, Err(e));
            }
            return Err(e);
        },
    };
    proof {
        lemma_path_accepted(path_text@, Ok(path));
    }
    let version = if toks.len() == 3 {
        let version_text = string_of(toks[2].as_slice());
        match Version::from_string(version_text.as_str()) {
            Ok(v) => v,
            Err(e) => return Err(e),
        }
    } else {
        Version::HTTP_0_9
    };
    Ok((method, path, version))
}

fn header_fault(h: &Vec<char>, characters: bool) -> (e: SerwerError)
    requires
        characters == (header_line(h@) is Characters),
    ensures
        reports_head_fault(e, HeadFault::Line(h@)),
{
    if characters {
        SerwerError::InvalidHeaderCharacters(string_of(h.as_slice()))
    } else {
        SerwerError::InvalidHeader(string_of(h.as_slice()))
    }
}

/// Reads header lines from `pos` up to the empty line; gives the headers
/// and where the body starts.
pub fn read_headers(b: &[u8], pos: usize) -> (r: Result<(Headers, usize), SerwerError>)
    requires
        pos <= b@.len(),
    ensures
        match header_section(b@, pos as int, Map::empty()) {
            Ok(hs) => r matches Ok(x) && x.0.wf() && x.0@ == hs.0 && x.1 == hs.1,
            Err(f) => r is Err && reports_head_fault(r->Err_0, f),
        },
        r matches Ok(x) ==> x.1 <= b@.len(),
{
    let mut headers = Headers::new();
    let mut at: usize = pos;
    loop
        invariant
            pos <= at <= b@.len(),
            headers.wf(),
            header_section(b@, pos as int, Map::empty()) == header_section(b@, at as int, headers@),
        decreases b@.len() - at,
    {
        let (line, next) = read_line(b, at);
        let text = match line_string(line) {
            Ok(s) => s,
            Err(e) => return Err(e),
        };
        let t = chars_of(text.as_str());
        let n = t.len();
        if !(n >= 2 && t[n - 2] == '\r' && t[n - 1] == '\n') {
            return Err(SerwerError::HeaderMissingTailingCRLF(text));
        }
        let h = slice_chars(&t, 0, n - 2);
        if h.len() == 0 {
            return Ok((headers, next));
        }
        let hs = string_of(h.as_slice());
        let ghost before = headers@;
        match headers.set_header_from_string(hs.as_str()) {
            Err(e) => {
                let characters = match e {
                    SerwerError::InvalidHeaderCharacters(_) => true,
                    _ => false,
                };
                return Err(header_fault(&h, characters));
            },
            Ok(()) => {},
        }
        assert(b@.subrange(at as int, next as int).len() > 0);
        at = next;
    }
}

impl Request {
    pub closed spec fn wf(&self) -> bool {
        self.path.wf() && self.headers.wf() && self.cookies.wf() && self.params.wf()
    }

    /// Parses a request from the bytes of a connection: the request line,
    /// header lines up to an empty line (each with its CRLF), the cookies of
    /// the `Cookie` header, and then as many body bytes as `Content-Length`
    /// gives (0 when it is missing or not a number). Bytes after the body are
    /// ignored; fewer than `Content-Length` is a `RequestBufferReadError`.
    pub fn from_bytes(data: &[u8]) -> (r: Result<Request, SerwerError>)
        ensures
            request_result(data@, r),
    {
        let (first, line_end_at) = read_line(data, 0);
        let text = match line_string(first) {
            Ok(s) => s,
            Err(e) => return Err(e),
        };
        let t = chars_of(text.as_str());
        let (method, path, version) = match parse_request_line(&t) {
            Ok(x) => x,
            Err(e) => return Err(e),
        };
        let (headers, body_start) = match read_headers(data, line_end_at) {
            Ok(x) => x,
            Err(e) => return Err(e),
        };
        let cookie_value = match headers.header("Cookie") {
            Some(v) => v.clone(),
            None => String::new(),
        };
        let cookies = match Cookies::from_string(cookie_value.as_str()) {
            Ok(c) => c,
            Err(e) => return Err(e),
        };
        let length = headers.content_length();
        if length > data.len() - body_start {
            return Err(SerwerError::RequestBufferReadError);
        }
        let mut body: Vec<u8> = Vec::new();
        let end = body_start + length;
        let mut i: usize = body_start;
        while i < end
            invariant
                end == body_start + length,
                body_start <= i <= end <= data@.len(),
                body@ == data@.subrange(body_start as int, i as int),
            decreases end - i,
        {
            body.push(data[i]);
            i += 1;
        }
        Ok(Request { method, path, version, headers, cookies, body, params: Params::new() })
    }

    pub fn method(&self) -> (r: Method)
        ensures
            r == self@.method,
    {
        self.method
    }

    /// The path text as the request line gave it.
    pub fn original_url(&self) -> (r: String)
        ensures
            r@ == self@.path.raw(),
    {
        self.path.get_string().clone()
    }

    /// The decoded value of the query parameter `key`.
    pub fn query_param(&self, key: &str) -> (r: Option<String>)
        requires
            self.wf(),
        ensures
            match r {
                Some(v) => self@.path.query().contains_key(key@) && self@.path.query()[key@] == v@,
                None => !self@.path.query().contains_key(key@),
            },
    {
        match self.path.get_query_param(key) {
            Some(v) => Some(v.clone()),
            None => None,
        }
    }

    pub fn version(&self) -> (r: Version)
        ensures
            r == self@.version,
    {
        self.version
    }

    /// The value of the header `key` (in any case).
    pub fn header(&self, key: &str) -> (r: Option<String>)
        requires
            self.wf(),
        ensures
            match r {
                Some(v) => self@.headers.contains_key(canonical(key@)) && self@.headers[canonical(key@)] == v@,
                None => !self@.headers.contains_key(canonical(key@)),
            },
    {
        match self.headers.header(key) {
            Some(v) => Some(v.clone()),
            None => None,
        }
    }

    /// The cookie named `key`.
    pub fn cookie(&self, key: &str) -> (r: Option<Cookie>)
        requires
            self.wf(),
        ensures
            match r {
                Some(c) => self@.cookies.contains_key(key@) && self@.cookies[key@] == c@,
                None => !self@.cookies.contains_key(key@),
            },
    {
        match self.cookies.cookie(key) {
            Some(c) => Some(c.duplicate()),
            None => None,
        }
    }

    /// The body as text; bytes that are not UTF-8 are a `FromUtf8Error`.
    pub fn body(&self) -> (r: Result<String, SerwerError>)
        ensures
            r is Ok <==> valid_utf8(self@.body),
            r matches Ok(s) ==> s@ == decode_utf8(self@.body),
            r matches Err(e) ==> e is FromUtf8Error,
    {
        match string_from_utf8(self.body_as_bytes()) {
            Ok(s) => Ok(s),
            Err(e) => Err(SerwerError::FromUtf8Error(utf8_error_text(&e))),
        }
    }

    /// The body bytes.
    pub fn body_as_bytes(&self) -> (r: Vec<u8>)
        ensures
            r@ == self@.body,
    {
        let mut v: Vec<u8> = Vec::new();
        let mut i: usize = 0;
        while i < self.body.len()
            invariant
                i <= self.body@.len(),
                v@ == self.body@.subrange(0, i as int),
            decreases self.body@.len() - i,
        {
            v.push(self.body[i]);
            i += 1;
        }
        assert(v@ =~= self.body@);
        v
    }

    /// The value bound to the route parameter `key`.
    pub fn param(&self, key: &str) -> (r: Option<String>)
        requires
            self.wf(),
        ensures
            match r {
                Some(v) => self@.params.contains_key(key@) && self@.params[key@] == v@,
                None => !self@.params.contains_key(key@),
            },
    {
        match self.params.param(key) {
            Some(v) => Some(v.clone()),
            None => None,
        }
    }

    pub fn path(&self) -> (r: &Path)
        ensures
            *r == self@.path,
    {
        &self.path
    }

    /// Binds the route parameters; nothing else changes.
    pub fn set_params(&mut self, params: Params)
        requires
            old(self).wf(),
            params.wf(),
        ensures
            final(self).wf(),
            final(self)@ == (RequestView { params: params@, ..old(self)@ }),
    {
        self.params = params;
    }
}

} // verus!
