//! A single cookie and its attributes.

use crate::error::SerwerError;
use crate::text::{
    all_in, all_in_class, chars_of, find, find_exec, lemma_find_from_bounds, single, slice_chars,
    string_of, CharClass,
};
use vstd::prelude::*;

verus! {

/// A cookie: a name, a value and optional attributes.
#[derive(Debug, Clone, PartialEq, Eq)]
pub struct Cookie {
    name: String,
    value: String,
    expires: Option<String>,
    max_age: Option<u64>,
    domain: Option<String>,
    path: Option<String>,
    secure: bool,
    http_only: bool,
    same_site: Option<String>,
}

/// What a cookie holds.
pub struct CookieView {
    pub name: Seq<char>,
    pub value: Seq<char>,
    pub expires: Option<Seq<char>>,
    pub max_age: Option<u64>,
    pub domain: Option<Seq<char>>,
    pub path: Option<Seq<char>>,
    pub secure: bool,
    pub http_only: bool,
    pub same_site: Option<Seq<char>>,
}

pub open spec fn opt_view(o: Option<String>) -> Option<Seq<char>> {
    match o {
        Some(s) => Some(s@),
        None => None,
    }
}

/// A cookie with only a name and a value.
pub open spec fn plain_cookie(name: Seq<char>, value: Seq<char>) -> CookieView {
    CookieView {
        name,
        value,
        expires: None,
        max_age: None,
        domain: None,
        path: None,
        secure: false,
        http_only: false,
        same_site: None,
    }
}

impl View for Cookie {
    type V = CookieView;

    closed spec fn view(&self) -> CookieView {
        CookieView {
            name: self.name@,
            value: self.value@,
            expires: opt_view(self.expires),
            max_age: self.max_age,
            domain: opt_view(self.domain),
            path: opt_view(self.path),
            secure: self.secure,
            http_only: self.http_only,
            same_site: opt_view(self.same_site),
        }
    }
}

/// What reading a `name=value` cookie pair gives.
pub enum CookiePair {
    Pair(Seq<char>, Seq<char>),
    /// No `=`, or an empty name or value.
    Malformed,
    /// A character outside the allowed sets.
    Characters,
}

/// `v` is wrapped in double quotes.
pub open spec fn double_quoted(v: Seq<char>) -> bool {
    v.len() >= 2 && v[0] == '"' && v.last() == '"'
}

/// How the pair `name=value` reads. A value in double quotes keeps them;
/// what is inside them must be cookie characters.
pub open spec fn cookie_pair(s: Seq<char>) -> CookiePair {
    let e = find(s, seq!['=']);
    if e < 0 {
        CookiePair::Malformed
    } else {
        let name = s.subrange(0, e);
        let value = s.subrange(e + 1, s.len() as int);
        let inner = if double_quoted(value) {
            value.subrange(1, value.len() - 1)
        } else {
            value
        };
        if name.len() == 0 || value.len() == 0 {
            CookiePair::Malformed
        } else if !all_in(name, CharClass::Token) || !all_in(inner, CharClass::CookieOctet) {
            CookiePair::Characters
        } else {
            CookiePair::Pair(name, value)
        }
    }
}

/// How `from_string` answers the pair `s`.
pub open spec fn cookie_result(s: Seq<char>, r: Result<Cookie, SerwerError>) -> bool {
    match cookie_pair(s) {
        CookiePair::Pair(n, v) => r matches Ok(c) && c@ == plain_cookie(n, v),
        CookiePair::Malformed => r matches Err(SerwerError::InvalidCookie(e)) && e@ == s,
        CookiePair::Characters => r matches Err(SerwerError::InvalidCookieCharacters(e)) && e@ == s,
    }
}

fn opt_string(s: &str) -> (r: Option<String>)
    ensures
        opt_view(r) == Some(s@),
{
    Some(String::from_str(s))
}

impl Cookie {
    /// A cookie with a name and a value and no attributes.
    pub fn new(name: &str, value: &str) -> (r: Cookie)
        ensures
            r@ == plain_cookie(name@, value@),
    {
        Cookie {
            name: String::from_str(name),
            value: String::from_str(value),
            expires: None,
            max_age: None,
            domain: None,
            path: None,
            secure: false,
            http_only: false,
            same_site: None,
        }
    }

    /// Reads a `name=value` pair. An empty name or value, or no `=`, is an
    /// `InvalidCookie` error; a name that is not a token, or a value (inside
    /// its double quotes, if it has them) with other than cookie characters,
    /// is an `InvalidCookieCharacters` error. Both carry the pair.
    pub fn from_string(string: &str) -> (r: Result<Cookie, SerwerError>)
        ensures
            cookie_result(string@, r),
    {
        let s = chars_of(string);
        Cookie::from_chars(&s)
    }

    pub fn from_chars(s: &Vec<char>) -> (r: Result<Cookie, SerwerError>)
        ensures
            cookie_result(s@, r),
    {
        let eq = single('=');
        let e = match find_exec(s, eq.as_slice(), 0) {
            None => return Err(SerwerError::InvalidCookie(string_of(s.as_slice()))),
            Some(e) => e,
        };
        proof {
            lemma_find_from_bounds(s@, seq!['='], 0);
        }
        let n = s.len();
        let name = slice_chars(s, 0, e);
        let value = slice_chars(s, e + 1, n);
        if name.len() == 0 || value.len() == 0 {
            return Err(SerwerError::InvalidCookie(string_of(s.as_slice())));
        }
        let m = value.len();
        let inner = if m >= 2 && value[0] == '"' && value[m - 1] == '"' {
            slice_chars(&value, 1, m - 1)
        } else {
            slice_chars(&value, 0, m)
        };
        assert(value@.subrange(0, m as int) =~= value@);
        if !all_in_class(&name, CharClass::Token) || !all_in_class(&inner, CharClass::CookieOctet) {
            return Err(SerwerError::InvalidCookieCharacters(string_of(s.as_slice())));
        }
        let name_string = string_of(name.as_slice());
        let value_string = string_of(value.as_slice());
        Ok(Cookie::new(name_string.as_str(), value_string.as_str()))
    }

    pub fn get_name(&self) -> (r: &String)
        ensures
            r@ == self@.name,
    {
        &self.name
    }

    pub fn get_value(&self) -> (r: &String)
        ensures
            r@ == self@.value,
    {
        &self.value
    }

    pub fn get_expires(&self) -> (r: Option<&String>)
        ensures
            match r {
                Some(s) => self@.expires == Some(s@),
                None => self@.expires is None,
            },
    {
        self.expires.as_ref()
    }

    pub fn get_max_age(&self) -> (r: Option<&u64>)
        ensures
            match r {
                Some(n) => self@.max_age == Some(*n),
                None => self@.max_age is None,
            },
    {
        self.max_age.as_ref()
    }

    pub fn get_domain(&self) -> (r: Option<&String>)
        ensures
            match r {
                Some(s) => self@.domain == Some(s@),
                None => self@.domain is None,
            },
    {
        self.domain.as_ref()
    }

    pub fn get_path(&self) -> (r: Option<&String>)
        ensures
            match r {
                Some(s) => self@.path == Some(s@),
                None => self@.path is None,
            },
    {
        self.path.as_ref()
    }

    pub fn get_secure(&self) -> (r: bool)
        ensures
            r == self@.secure,
    {
        self.secure
    }

    pub fn get_http_only(&self) -> (r: bool)
        ensures
            r == self@.http_only,
    {
        self.http_only
    }

    pub fn get_same_site(&self) -> (r: Option<&String>)
        ensures
            match r {
                Some(s) => self@.same_site == Some(s@),
                None => self@.same_site is None,
            },
    {
        self.same_site.as_ref()
    }

    /// A copy of this cookie.
    pub fn duplicate(&self) -> (r: Cookie)
        ensures
            r@ == self@,
    {
        Cookie {
            name: self.name.clone(),
            value: self.value.clone(),
            expires: self.expires_field(),
            max_age: self.max_age,
            domain: self.domain_field(),
            path: self.path_field(),
            secure: self.secure,
            http_only: self.http_only,
            same_site: self.same_site_field(),
        }
    }

    pub(crate) fn expires_field(&self) -> (r: Option<String>)
        ensures
            opt_view(r) == self@.expires,
    {
        match &self.expires {
            Some(s) => Some(String::from_str(s.as_str())),
            None => None,
        }
    }

    pub(crate) fn domain_field(&self) -> (r: Option<String>)
        ensures
            opt_view(r) == self@.domain,
    {
        match &self.domain {
            Some(s) => Some(String::from_str(s.as_str())),
            None => None,
        }
    }

    pub(crate) fn path_field(&self) -> (r: Option<String>)
        ensures
            opt_view(r) == self@.path,
    {
        match &self.path {
            Some(s) => Some(String::from_str(s.as_str())),
            None => None,
        }
    }

    pub(crate) fn same_site_field(&self) -> (r: Option<String>)
        ensures
            opt_view(r) == self@.same_site,
    {
        match &self.same_site {
            Some(s) => Some(String::from_str(s.as_str())),
            None => None,
        }
    }

    pub fn set_expires(self, expires: &str) -> (r: Cookie)
        ensures
            r@ == (CookieView { expires: Some(expires@), ..self@ }),
    {
        Cookie { expires: opt_string(expires), ..self }
    }

    pub fn set_max_age(self, max_age: u64) -> (r: Cookie)
        ensures
            r@ == (CookieView { max_age: Some(max_age), ..self@ }),
    {
        Cookie { max_age: Some(max_age), ..self }
    }

    pub fn set_domain(self, domain: &str) -> (r: Cookie)
        ensures
            r@ == (CookieView { domain: Some(domain@), ..self@ }),
    {
        Cookie { domain: opt_string(domain), ..self }
    }

    pub fn set_path(self, path: &str) -> (r: Cookie)
        ensures
            r@ == (CookieView { path: Some(path@), ..self@ }),
    {
        Cookie { path: opt_string(path), ..self }
    }

    pub fn set_secure(self, secure: bool) -> (r: Cookie)
        ensures
            r@ == (CookieView { secure, ..self@ }),
    {
        Cookie { secure, ..self }
    }

    pub fn set_http_only(self, http_only: bool) -> (r: Cookie)
        ensures
            r@ == (CookieView { http_only, ..self@ }),
    {
        Cookie { http_only, ..self }
    }

    pub fn set_same_site(self, same_site: &str) -> (r: Cookie)
        ensures
            r@ == (CookieView { same_site: Some(same_site@), ..self@ }),
    {
        Cookie { same_site: opt_string(same_site), ..self }
    }
}

} // verus!
