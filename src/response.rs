//! Responses: built by handlers, then written out as bytes.

use crate::cookie::{Cookie, CookieView};
use crate::cookies::{cookie_block, Cookies};
use crate::headers::{canonical, header_block, Headers};
use crate::sorted_map::{sorted, to_map};
use crate::status_code::{status_text, StatusCode};
use crate::text::{decimal, decimal_string};
use crate::version::{version_name, Version};
use vstd::prelude::*;
use vstd::string::StrSliceExecFns;
use vstd::utf8::encode_utf8;

verus! {

/// A response under construction.
#[derive(Debug, Clone)]
pub struct Response {
    version: Version,
    status_code: StatusCode,
    body: Vec<u8>,
    headers: Headers,
    cookies: Cookies,
}

/// What a response holds.
pub struct ResponseView {
    pub version: Version,
    pub status_code: StatusCode,
    pub body: Seq<u8>,
    pub headers: Map<Seq<char>, Seq<char>>,
    pub cookies: Map<Seq<char>, CookieView>,
}

impl View for Response {
    type V = ResponseView;

    closed spec fn view(&self) -> ResponseView {
        ResponseView {
            version: self.version,
            status_code: self.status_code,
            body: self.body@,
            headers: self.headers@,
            cookies: self.cookies@,
        }
    }
}

/// The head of a response: status line, header lines, `Set-Cookie` lines and a blank line.
pub open spec fn response_head(
    version: Version,
    status: StatusCode,
    headers: Seq<(Seq<char>, Seq<char>)>,
    cookies: Seq<(Seq<char>, CookieView)>,
) -> Seq<char> {
    version_name(version) + " "@ + status_text(status) + "\r\n"@ + header_block(headers)
        + cookie_block(cookies) + "\r\n"@
}

/// The `Content-Length` header name.
pub open spec fn content_length_name() -> Seq<char> {
    canonical("Content-Length"@)
}

impl Response {
    pub closed spec fn wf(&self) -> bool {
        self.headers.wf() && self.cookies.wf()
    }

    /// The header entries, in name order.
    pub closed spec fn header_entries(&self) -> Seq<(Seq<char>, Seq<char>)> {
        self.headers.entries()
    }

    /// The cookie entries, in name order.
    pub closed spec fn cookie_entries(&self) -> Seq<(Seq<char>, CookieView)> {
        self.cookies.entries()
    }

    /// The header and cookie entries are in strictly increasing name order,
    /// and are exactly what the response holds.
    pub proof fn lemma_entries(&self)
        requires
            self.wf(),
        ensures
            sorted(self.header_entries()),
            self@.headers == to_map(self.header_entries()),
            sorted(self.cookie_entries()),
            self@.cookies == to_map(self.cookie_entries()),
    {
        self.headers.lemma_entries();
        self.cookies.lemma_entries();
    }

    /// A `200 OK` response with no headers, cookies or body.
    pub fn new(version: &Version) -> (r: Response)
        ensures
            r.wf(),
            r@ == (ResponseView {
                version: *version,
                status_code: StatusCode::OK,
                body: seq![],
                headers: Map::empty(),
                cookies: Map::empty(),
            }),
            r.header_entries() == Seq::<(Seq<char>, Seq<char>)>::empty(),
            r.cookie_entries() == Seq::<(Seq<char>, CookieView)>::empty(),
    {
        let r = Response {
            version: *version,
            status_code: StatusCode::OK,
            body: Vec::new(),
            headers: Headers::new(),
            cookies: Cookies::new(),
        };
        assert(r.body@ =~= Seq::<u8>::empty());
        r
    }

    /// Sets the status and the body (with its `Content-Length`).
    pub fn set(&mut self, status_code: StatusCode, body: String) -> (r: &mut Self)
        requires
            old(self).wf(),
        ensures
            *final(self) == *final(r),
            r.wf(),
            r@ == (ResponseView {
                status_code,
                body: encode_utf8(body@),
                headers: old(self)@.headers.insert(
                    content_length_name(),
                    decimal(encode_utf8(body@).len()),
                ),
                ..old(self)@
            }),
    {
        self.status_code = status_code;
        self.set_body(body.as_str());
        self
    }

    /// Sets the status.
    pub fn set_status_code(&mut self, status_code: StatusCode) -> (r: &mut Self)
        requires
            old(self).wf(),
        ensures
            *final(self) == *final(r),
            r.wf(),
            r@ == (ResponseView { status_code, ..old(self)@ }),
            r.header_entries() == old(self).header_entries(),
            r.cookie_entries() == old(self).cookie_entries(),
    {
        self.status_code = status_code;
        self
    }

    /// Sets a header, under the canonical form of `name`.
    pub fn set_header(&mut self, name: &str, value: &str) -> (r: &mut Self)
        requires
            old(self).wf(),
        ensures
            *final(self) == *final(r),
            r.wf(),
            r@ == (ResponseView {
                headers: old(self)@.headers.insert(canonical(name@), value@),
                ..old(self)@
            }),
    {
        self.headers.set_header(name, value);
        self
    }

    /// Sets a cookie under `name`.
    pub fn set_cookie(&mut self, name: &str, cookie: Cookie) -> (r: &mut Self)
        requires
            old(self).wf(),
        ensures
            *final(self) == *final(r),
            r.wf(),
            r@ == (ResponseView {
                cookies: old(self)@.cookies.insert(name@, cookie@),
                ..old(self)@
            }),
    {
        self.cookies.set_cookie(name, cookie);
        self
    }

    /// Sets the body to the bytes of `body`, and `Content-Length` to their count.
    pub fn set_body(&mut self, body: &str) -> (r: &mut Self)
        requires
            old(self).wf(),
        ensures
            *final(self) == *final(r),
            r.wf(),
            r@ == (ResponseView {
                body: encode_utf8(body@),
                headers: old(self)@.headers.insert(
                    content_length_name(),
                    decimal(encode_utf8(body@).len()),
                ),
                ..old(self)@
            }),
    {
        let bytes = body.as_bytes_vec();
        let length = decimal_string(bytes.len() as u64);
        self.headers.set_header("Content-Length", length.as_str());
        self.body = bytes;
        self
    }

    /// Sets the body to `body`, and `Content-Length` to its length.
    pub fn set_body_from_bytes(&mut self, body: Vec<u8>) -> (r: &mut Self)
        requires
            old(self).wf(),
        ensures
            *final(self) == *final(r),
            r.wf(),
            r@ == (ResponseView {
                body: body@,
                headers: old(self)@.headers.insert(content_length_name(), decimal(body@.len())),
                ..old(self)@
            }),
    {
        let length = decimal_string(body.len() as u64);
        self.headers.set_header("Content-Length", length.as_str());
        self.body = body;
        self
    }

    /// The wire form: status line, headers, `Set-Cookie` lines, a blank line, then the body.
    pub fn write(self) -> (r: Vec<u8>)
        ensures
            r@ == encode_utf8(
                response_head(
                    self@.version,
                    self@.status_code,
                    self.header_entries(),
                    self.cookie_entries(),
                ),
            ) + self@.body,
    {
        let mut head = self.version.to_string();
        head.append(" ");
        let status = self.status_code.to_string();
        head.append(status.as_str());
        head.append("\r\n");
        let h = self.headers.to_text();
        head.append(h.as_str());
        let c = self.cookies.to_text();
        head.append(c.as_str());
        head.append("\r\n");
        let mut out = head.as_str().as_bytes_vec();
        let mut body = self.body;
        out.append(&mut body);
        out
    }
}

} // verus!
