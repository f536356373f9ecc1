//! The cookies of a request or a response, by name.

use crate::cookie::{cookie_pair, cookie_result, plain_cookie, Cookie, CookiePair, CookieView};
use crate::error::SerwerError;
use crate::sorted_map::{lemma_map_entry_values, sorted, to_map, SortedMap};
use crate::text::{chars_of, decimal, decimal_string, split, split_exec};
use vstd::prelude::*;
use vstd::string::StrSliceExecFns;
use vstd::utf8::encode_utf8;

verus! {

/// Cookies by name, in name order.
#[derive(Debug, Clone, PartialEq, Eq)]
pub struct Cookies {
    cookies: SortedMap<Cookie>,
}

/// The cookies that the pairs give, read left to right, or the first pair refused.
pub open spec fn cookie_parts(parts: Seq<Seq<char>>) -> Result<Map<Seq<char>, CookieView>, Seq<char>>
    decreases parts.len(),
{
    if parts.len() == 0 {
        Ok(Map::empty())
    } else {
        match cookie_parts(parts.drop_last()) {
            Err(p) => Err(p),
            Ok(m) => match cookie_pair(parts.last()) {
                CookiePair::Pair(n, v) => Ok(m.insert(n, plain_cookie(n, v))),
                _ => Err(parts.last()),
            },
        }
    }
}

/// What the `Cookie` header value `s` gives: no cookies when it is empty,
/// else the `; `-separated pairs.
pub open spec fn cookies_outcome(s: Seq<char>) -> Result<Map<Seq<char>, CookieView>, Seq<char>> {
    if s.len() == 0 {
        Ok(Map::empty())
    } else {
        cookie_parts(split(s, seq![';', ' ']))
    }
}

/// `label` and `v` when there is a `v`.
pub open spec fn attribute(label: Seq<char>, v: Option<Seq<char>>) -> Seq<char> {
    match v {
        Some(x) => label + x,
        None => seq![],
    }
}

/// `text` when `flag` holds.
pub open spec fn flag(text: Seq<char>, on: bool) -> Seq<char> {
    if on {
        text
    } else {
        seq![]
    }
}

/// The `Set-Cookie` line of the cookie `c` stored under `name`.
pub open spec fn set_cookie_line(name: Seq<char>, c: CookieView) -> Seq<char> {
    "Set-Cookie: "@ + name + "="@ + c.value + attribute("; Expires="@, c.expires) + match c.max_age {
        Some(n) => "; Max-Age="@ + decimal(n as nat),
        None => seq![],
    } + attribute("; Domain="@, c.domain) + attribute("; Path="@, c.path) + flag(
        "; Secure"@,
        c.secure,
    ) + flag("; HttpOnly"@, c.http_only) + attribute("; SameSite="@, c.same_site) + "\r\n"@
}

/// The `Set-Cookie` lines of the entries, in order.
pub open spec fn cookie_block(entries: Seq<(Seq<char>, CookieView)>) -> Seq<char>
    decreases entries.len(),
{
    if entries.len() == 0 {
        seq![]
    } else {
        cookie_block(entries.drop_last()) + set_cookie_line(entries.last().0, entries.last().1)
    }
}

impl View for Cookies {
    type V = Map<Seq<char>, CookieView>;

    closed spec fn view(&self) -> Map<Seq<char>, CookieView> {
        self.cookies@.map_values(|c: Cookie| c@)
    }
}

fn push_attribute(out: &mut String, label: &str, v: &Option<String>)
    ensures
        final(out)@ == old(out)@ + attribute(label@, crate::cookie::opt_view(*v)),
{
    match v {
        Some(x) => {
            out.append(label);
            out.append(x.as_str());
        },
        None => {
            assert(old(out)@ + seq![] =~= old(out)@);
        },
    }
}

fn push_flag(out: &mut String, text: &str, on: bool)
    ensures
        final(out)@ == old(out)@ + flag(text@, on),
{
    if on {
        out.append(text);
    } else {
        assert(old(out)@ + seq![] =~= old(out)@);
    }
}

/// The `Set-Cookie` line of `cookie` stored under `name`.
fn set_cookie_text(name: &String, cookie: &Cookie) -> (r: String)
    ensures
        r@ == set_cookie_line(name@, cookie@),
{
    let mut out = String::new();
    out.append("Set-Cookie: ");
    out.append(name.as_str());
    out.append("=");
    out.append(cookie.get_value().as_str());
    push_attribute(&mut out, "; Expires=", &cookie.expires_field());
    let ghost mid = out@;
    match cookie.get_max_age() {
        Some(n) => {
            out.append("; Max-Age=");
            let d = decimal_string(*n);
            out.append(d.as_str());
        },
        None => {
            assert(mid + seq![] =~= mid);
        },
    }
    push_attribute(&mut out, "; Domain=", &cookie.domain_field());
    push_attribute(&mut out, "; Path=", &cookie.path_field());
    push_flag(&mut out, "; Secure", cookie.get_secure());
    push_flag(&mut out, "; HttpOnly", cookie.get_http_only());
    push_attribute(&mut out, "; SameSite=", &cookie.same_site_field());
    out.append("\r\n");
    assert(out@ =~= set_cookie_line(name@, cookie@));
    out
}

impl Cookies {
    /// The entries are kept in name order.
    pub closed spec fn wf(&self) -> bool {
        self.cookies.wf()
    }

    /// The (name, cookie) entries in name order.
    pub closed spec fn entries(&self) -> Seq<(Seq<char>, CookieView)> {
        self.cookies.entries().map_values(|e: (Seq<char>, Cookie)| (e.0, e.1@))
    }

    /// The entries are in strictly increasing name order, and are exactly
    /// the names and cookies that the collection holds.
    pub proof fn lemma_entries(&self)
        requires
            self.wf(),
        ensures
            sorted(self.entries()),
            self@ == to_map(self.entries()),
    {
        self.cookies.lemma_sorted();
        let f = |c: Cookie| c@;
        lemma_map_entry_values(self.cookies.entries(), self.entries(), f);
        assert(self@ =~= to_map(self.cookies.entries()).map_values(f));
    }

    /// No cookies.
    pub fn new() -> (r: Cookies)
        ensures
            r.wf(),
            r@ == Map::<Seq<char>, CookieView>::empty(),
            r.entries() == Seq::<(Seq<char>, CookieView)>::empty(),
    {
        let r = Cookies { cookies: SortedMap::new() };
        assert(r@ =~= Map::<Seq<char>, CookieView>::empty());
        assert(r.entries() =~= Seq::<(Seq<char>, CookieView)>::empty());
        r
    }

    /// Reads the value of a `Cookie` header: `; `-separated `name=value`
    /// pairs, each read as `Cookie::from_string` reads it. An empty value
    /// holds no cookies; the first pair refused gives the error.
    pub fn from_string(string: &str) -> (r: Result<Cookies, SerwerError>)
        ensures
            match cookies_outcome(string@) {
                Ok(m) => r matches Ok(c) && c.wf() && c@ == m,
                Err(part) => r is Err && cookie_result(part, Err(r->Err_0)),
            },
    {
        let s = chars_of(string);
        let mut cookies: SortedMap<Cookie> = SortedMap::new();
        assert(cookies@.map_values(|c: Cookie| c@) =~= Map::<Seq<char>, CookieView>::empty());
        if s.len() == 0 {
            return Ok(Cookies { cookies });
        }
        let mut sep: Vec<char> = Vec::new();
        sep.push(';');
        sep.push(' ');
        assert(sep@ =~= seq![';', ' ']);
        let parts = split_exec(&s, sep.as_slice());
        let ghost all = split(s@, seq![';', ' ']);
        let mut i: usize = 0;
        assert(all.subrange(0, 0) =~= Seq::<Seq<char>>::empty());
        while i < parts.len()
            invariant
                s@ == string@,
                s@.len() > 0,
                all == split(s@, seq![';', ' ']),
                parts@.len() == all.len(),
                forall|j: int| 0 <= j < parts@.len() ==> #[trigger] parts@[j]@ == all[j],
                i <= parts@.len(),
                cookies.wf(),
                cookie_parts(all.subrange(0, i as int)) == Ok::<Map<Seq<char>, CookieView>, Seq<char>>(
                    cookies@.map_values(|c: Cookie| c@),
                ),
            decreases parts@.len() - i,
        {
            assert(all.subrange(0, i + 1).drop_last() =~= all.subrange(0, i as int));
            assert(all.subrange(0, i + 1).last() == all[i as int]);
            assert(parts@[i as int]@ == all[i as int]);
            match Cookie::from_chars(&parts[i]) {
                Err(e) => {
                    proof {
                        lemma_cookie_parts_error(all, i as int + 1);
                    }
                    return Err(e);
                },
                Ok(cookie) => {
                    let ghost before = cookies@.map_values(|c: Cookie| c@);
                    let name = String::from_str(cookie.get_name().as_str());
                    cookies.insert(name, cookie);
                    assert(cookies@.map_values(|c: Cookie| c@) =~= before.insert(name@, cookie@));
                },
            }
            i += 1;
        }
        assert(all.subrange(0, all.len() as int) =~= all);
        Ok(Cookies { cookies })
    }

    /// The cookie stored under `key`.
    pub fn cookie(&self, key: &str) -> (r: Option<&Cookie>)
        requires
            self.wf(),
        ensures
            match r {
                Some(c) => self@.contains_key(key@) && self@[key@] == c@,
                None => !self@.contains_key(key@),
            },
    {
        self.cookies.get(key)
    }

    /// Stores `value` under `key`, replacing what was there.
    pub fn set_cookie(&mut self, key: &str, value: Cookie)
        requires
            old(self).wf(),
        ensures
            final(self).wf(),
            final(self)@ == old(self)@.insert(key@, value@),
    {
        self.cookies.insert(String::from_str(key), value);
        assert(self@ =~= old(self)@.insert(key@, value@));
    }

    /// The `Set-Cookie` lines as text, one per cookie in name order, each
    /// with the attributes that the cookie has.
    pub fn to_text(&self) -> (r: String)
        ensures
            r@ == cookie_block(self.entries()),
    {
        let mut out = String::new();
        let mut i: usize = 0;
        assert(self.entries().subrange(0, 0) =~= Seq::<(Seq<char>, CookieView)>::empty());
        while i < self.cookies.len()
            invariant
                i <= self.entries().len(),
                self.entries().len() == self.cookies.entries().len(),
                out@ == cookie_block(self.entries().subrange(0, i as int)),
            decreases self.entries().len() - i,
        {
            let name = self.cookies.key_at(i);
            let cookie = self.cookies.value_at(i);
            let line = set_cookie_text(name, cookie);
            out.append(line.as_str());
            assert(self.entries().subrange(0, i + 1).drop_last() =~= self.entries().subrange(0, i as int));
            i += 1;
        }
        assert(self.entries().subrange(0, i as int) =~= self.entries());
        out
    }

    /// The `Set-Cookie` lines as bytes.
    pub fn to_bytes(&self) -> (r: Vec<u8>)
        ensures
            r@ == encode_utf8(cookie_block(self.entries())),
    {
        let text = self.to_text();
        text.as_str().as_bytes_vec()
    }
}

/// Once a prefix of the pairs is refused, every longer prefix is refused the same way.
proof fn lemma_cookie_parts_error(parts: Seq<Seq<char>>, n: int)
    requires
        0 < n <= parts.len(),
        cookie_parts(parts.subrange(0, n)) is Err,
    ensures
        cookie_parts(parts) == cookie_parts(parts.subrange(0, n)),
    decreases parts.len() - n,
{
    if n < parts.len() {
        assert(parts.subrange(0, n + 1).drop_last() =~= parts.subrange(0, n));
        lemma_cookie_parts_error(parts, n + 1);
    } else {
        assert(parts.subrange(0, n) =~= parts);
    }
}

} // verus!
