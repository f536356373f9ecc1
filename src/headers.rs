//! Header fields: names in one canonical case, values as given.

use crate::error::SerwerError;
use crate::sorted_map::{lemma_map_entry_values, sorted, to_map, SortedMap};
use crate::text::{
    all_in, all_in_class, chars_of, concat, find, find_exec, lemma_find_from_bounds, single,
    slice_chars, string_of, trim, trim_exec, trim_start, trim_end, parse_usize_exec, CharClass,
};
use vstd::prelude::*;
use vstd::string::StrSliceExecFns;
use vstd::utf8::encode_utf8;

verus! {

/// Header names and values, in name order.
#[derive(Debug, Clone, PartialEq, Eq)]
pub struct Headers {
    headers: SortedMap<String>,
}

/// The ASCII upper case of `c`; other characters are left alone.
pub open spec fn upper(c: char) -> char {
    if 'a' <= c && c <= 'z' {
        ((c as u8) - 32) as u8 as char
    } else {
        c
    }
}

/// The ASCII lower case of `c`; other characters are left alone.
pub open spec fn lower(c: char) -> char {
    if 'A' <= c && c <= 'Z' {
        ((c as u8) + 32) as u8 as char
    } else {
        c
    }
}

/// The canonical form of a header name: each `-`-separated word starts in
/// upper case and goes on in lower case (`content-LENGTH` is `Content-Length`).
pub open spec fn canonical(s: Seq<char>) -> Seq<char> {
    Seq::new(
        s.len(),
        |i: int|
            if i == 0 || s[i - 1] == '-' {
                upper(s[i])
            } else {
                lower(s[i])
            },
    )
}

/// The canonical form of a header name.
pub fn canonical_name(name: &str) -> (r: String)
    ensures
        r@ == canonical(name@),
{
    let s = chars_of(name);
    let mut out: Vec<char> = Vec::new();
    let mut i: usize = 0;
    while i < s.len()
        invariant
            i <= s@.len(),
            s@ == name@,
            out@ == canonical(name@).subrange(0, i as int),
        decreases s@.len() - i,
    {
        let c = s[i];
        let start = i == 0 || s[i - 1] == '-';
        let d = if start {
            if 'a' <= c && c <= 'z' {
                ((c as u8) - 32) as char
            } else {
                c
            }
        } else {
            if 'A' <= c && c <= 'Z' {
                ((c as u8) + 32) as char
            } else {
                c
            }
        };
        out.push(d);
        i += 1;
        assert(out@ =~= canonical(name@).subrange(0, i as int));
    }
    assert(canonical(name@).subrange(0, s@.len() as int) =~= canonical(name@));
    string_of(out.as_slice())
}

/// What reading a header line gives.
pub enum HeaderLine {
    /// The canonical name and the trimmed value.
    Field(Seq<char>, Seq<char>),
    /// No `:`, or nothing before it.
    Malformed,
    /// A character outside the allowed sets.
    Characters,
}

/// How the line `Name: value` reads.
pub open spec fn header_line(s: Seq<char>) -> HeaderLine {
    let c = find(s, seq![':']);
    if c < 0 {
        HeaderLine::Malformed
    } else {
        let name = s.subrange(0, c);
        let value = trim(s.subrange(c + 1, s.len() as int));
        if name.len() == 0 {
            HeaderLine::Malformed
        } else if !all_in(name, CharClass::Token) || !all_in(value, CharClass::Printable) {
            HeaderLine::Characters
        } else {
            HeaderLine::Field(canonical(name), value)
        }
    }
}

/// The wire form of header entries: `Name: value\r\n` for each, in order.
pub open spec fn header_block(entries: Seq<(Seq<char>, Seq<char>)>) -> Seq<char>
    decreases entries.len(),
{
    if entries.len() == 0 {
        seq![]
    } else {
        header_block(entries.drop_last()) + entries.last().0 + ": "@ + entries.last().1 + "\r\n"@
    }
}

impl View for Headers {
    type V = Map<Seq<char>, Seq<char>>;

    closed spec fn view(&self) -> Map<Seq<char>, Seq<char>> {
        self.headers@.map_values(|v: String| v@)
    }
}

impl Headers {
    /// The entries are kept in name order.
    pub closed spec fn wf(&self) -> bool {
        self.headers.wf()
    }

    /// The (name, value) entries in name order.
    pub closed spec fn entries(&self) -> Seq<(Seq<char>, Seq<char>)> {
        self.headers.entries().map_values(|e: (Seq<char>, String)| (e.0, e.1@))
    }

    /// The entries are in strictly increasing name order, and are exactly
    /// the names and values that the headers hold.
    pub proof fn lemma_entries(&self)
        requires
            self.wf(),
        ensures
            sorted(self.entries()),
            self@ == to_map(self.entries()),
    {
        self.headers.lemma_sorted();
        let f = |v: String| v@;
        lemma_map_entry_values(self.headers.entries(), self.entries(), f);
        assert(self@ =~= to_map(self.headers.entries()).map_values(f));
    }

    /// No headers.
    pub fn new() -> (r: Headers)
        ensures
            r.wf(),
            r@ == Map::<Seq<char>, Seq<char>>::empty(),
            r.entries() == Seq::<(Seq<char>, Seq<char>)>::empty(),
    {
        let r = Headers { headers: SortedMap::new() };
        assert(r@ =~= Map::<Seq<char>, Seq<char>>::empty());
        assert(r.entries() =~= Seq::<(Seq<char>, Seq<char>)>::empty());
        r
    }

    /// Reads a `Name: value` line and stores it. The value is trimmed; the
    /// name must be a non-empty token and the value printable ASCII. A line
    /// without `:` or without a name is an `InvalidHeader` error; a disallowed
    /// character is an `InvalidHeaderCharacters` error. Both carry the line.
    pub fn set_header_from_string(&mut self, string: &str) -> (r: Result<(), SerwerError>)
        requires
            old(self).wf(),
        ensures
            final(self).wf(),
            match header_line(string@) {
                HeaderLine::Field(n, v) => r is Ok && final(self)@ == old(self)@.insert(n, v),
                HeaderLine::Malformed => r matches Err(SerwerError::InvalidHeader(e)) && e@
                    == string@ && final(self)@ == old(self)@,
                HeaderLine::Characters => r matches Err(SerwerError::InvalidHeaderCharacters(e))
                    && e@ == string@ && final(self)@ == old(self)@,
            },
    {
        let s = chars_of(string);
        let colon = single(':');
        let c = match find_exec(&s, colon.as_slice(), 0) {
            None => return Err(SerwerError::InvalidHeader(String::from_str(string))),
            Some(c) => c,
        };
        proof {
            lemma_find_from_bounds(s@, seq![':'], 0);
        }
        let n = s.len();
        let name = slice_chars(&s, 0, c);
        let raw_value = slice_chars(&s, c + 1, n);
        let value = trim_exec(&raw_value);
        if name.len() == 0 {
            return Err(SerwerError::InvalidHeader(String::from_str(string)));
        }
        if !all_in_class(&name, CharClass::Token) || !all_in_class(&value, CharClass::Printable) {
            return Err(SerwerError::InvalidHeaderCharacters(String::from_str(string)));
        }
        let name_string = string_of(name.as_slice());
        let value_string = string_of(value.as_slice());
        self.set_header(name_string.as_str(), value_string.as_str());
        Ok(())
    }

    /// Stores `value` under the canonical form of `name`, replacing what was there.
    pub fn set_header(&mut self, name: &str, value: &str)
        requires
            old(self).wf(),
        ensures
            final(self).wf(),
            final(self)@ == old(self)@.insert(canonical(name@), value@),
    {
        let key = canonical_name(name);
        self.headers.insert(key, String::from_str(value));
        assert(self@ =~= old(self)@.insert(canonical(name@), value@));
    }

    /// The value stored under the canonical form of `name`.
    pub fn header(&self, name: &str) -> (r: Option<&String>)
        requires
            self.wf(),
        ensures
            match r {
                Some(v) => self@.contains_key(canonical(name@)) && self@[canonical(name@)] == v@,
                None => !self@.contains_key(canonical(name@)),
            },
    {
        let key = canonical_name(name);
        self.headers.get(key.as_str())
    }

    /// The body length that `Content-Length` gives: 0 when it is missing or not a number.
    pub fn content_length(&self) -> (r: usize)
        requires
            self.wf(),
        ensures
            r == crate::request::content_length(self@),
    {
        proof {
            reveal_strlit("Content-Length");
        }
        match self.header("Content-Length") {
            Some(v) => {
                let digits = chars_of(v.as_str());
                match parse_usize_exec(&digits) {
                    Some(n) => n,
                    None => 0,
                }
            },
            None => 0,
        }
    }

    /// The header lines as text, `Name: value\r\n` each, in name order.
    pub fn to_text(&self) -> (r: String)
        ensures
            r@ == header_block(self.entries()),
    {
        let mut out = String::new();
        let mut i: usize = 0;
        assert(self.entries().subrange(0, 0) =~= Seq::<(Seq<char>, Seq<char>)>::empty());
        while i < self.headers.len()
            invariant
                i <= self.entries().len(),
                self.entries().len() == self.headers.entries().len(),
                out@ == header_block(self.entries().subrange(0, i as int)),
            decreases self.entries().len() - i,
        {
            let name = self.headers.key_at(i);
            let value = self.headers.value_at(i);
            out.append(name.as_str());
            out.append(": ");
            out.append(value.as_str());
            out.append("\r\n");
            assert(self.entries().subrange(0, i + 1).drop_last() =~= self.entries().subrange(0, i as int));
            i += 1;
        }
        assert(self.entries().subrange(0, i as int) =~= self.entries());
        out
    }

    /// The header lines as bytes, `Name: value\r\n` each, in name order.
    pub fn to_bytes(&self) -> (r: Vec<u8>)
        ensures
            r@ == encode_utf8(header_block(self.entries())),
    {
        let text = self.to_text();
        text.as_str().as_bytes_vec()
    }
}

/// A line written as `Name: value` reads back as that name, in canonical
/// case, and that value, when the name is a token and the value is printable
/// with no space at either end.
pub proof fn lemma_header_line_round_trip(name: Seq<char>, value: Seq<char>)
    requires
        name.len() > 0,
        all_in(name, CharClass::Token),
        all_in(value, CharClass::Printable),
        value.len() > 0 ==> value[0] != ' ' && value.last() != ' ',
    ensures
        header_line(name + ": "@ + value) == HeaderLine::Field(canonical(name), value),
{
    reveal_strlit(": ");
    let line = name + ": "@ + value;
    assert forall|j: int| 0 <= j < name.len() implies line[j] != ':' by {
        assert(crate::text::in_class(name[j], CharClass::Token));
    }
    assert(line[name.len() as int] == ':');
    crate::text::lemma_find_char(line, ':', 0);
    assert(find(line, seq![':']) == name.len());
    assert(line.subrange(0, name.len() as int) =~= name);
    let rest = line.subrange(name.len() + 1 as int, line.len() as int);
    assert(rest =~= seq![' '] + value);
    assert(rest.drop_first() =~= value);
    if value.len() > 0 {
        assert(crate::text::in_class(value[0], CharClass::Printable));
        assert(crate::text::in_class(value.last(), CharClass::Printable));
        assert(crate::text::in_class(value[value.len() - 1], CharClass::Printable));
    }
    assert(trim_start(rest) == trim_start(value));
    assert(trim_start(value) == value);
    assert(trim_end(value) == value);
}

} // verus!
