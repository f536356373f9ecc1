//! The `name=value&...` parameters of a query string.

use crate::decode::{decode, plus_to_space, unescape, Unescaped, invalid_digit_message};
use crate::error::SerwerError;
use crate::sorted_map::SortedMap;
use crate::text::{
    all_in, all_in_class, chars_of, find, lemma_find_from_bounds, slice_chars, split, split_exec,
    string_of, trim, trim_exec, find_exec, single, occurs_at, CharClass,
};
use vstd::prelude::*;

verus! {

/// Query parameter names and their decoded values.
#[derive(Debug, Clone, PartialEq, Eq)]
pub struct QueryParams {
    query_params: SortedMap<String>,
}

/// Why a query string is refused.
pub enum QueryFault {
    /// A part with no `=`, or with an empty name or value; carries the part.
    Malformed(Seq<char>),
    /// A character outside the allowed sets; carries the part.
    Characters(Seq<char>),
    /// An escape cut short; carries the raw value.
    Truncated(Seq<char>),
    /// An escape that is not base 16.
    BadDigits,
}

/// What one `name=value` part gives: the name and decoded value, or a fault.
pub open spec fn query_part(p: Seq<char>) -> Result<(Seq<char>, Seq<char>), QueryFault> {
    let eq = find(p, seq!['=']);
    if eq < 0 {
        Err(QueryFault::Malformed(p))
    } else {
        let name = p.subrange(0, eq);
        let value = trim(p.subrange(eq + 1, p.len() as int));
        if name.len() == 0 || value.len() == 0 {
            Err(QueryFault::Malformed(p))
        } else if !all_in(name, CharClass::Unreserved) || !all_in(value, CharClass::RawQueryValue) {
            Err(QueryFault::Characters(p))
        } else {
            match unescape(value) {
                Unescaped::Truncated => Err(QueryFault::Truncated(value)),
                Unescaped::BadDigits => Err(QueryFault::BadDigits),
                Unescaped::Text(t) => if all_in(plus_to_space(t), CharClass::QueryValue) {
                    Ok((name, plus_to_space(t)))
                } else {
                    Err(QueryFault::Characters(p))
                },
            }
        }
    }
}

/// The parameters that the parts give, read left to right; a later part
/// replaces an earlier one of the same name.
pub open spec fn query_parts(parts: Seq<Seq<char>>) -> Result<Map<Seq<char>, Seq<char>>, QueryFault>
    decreases parts.len(),
{
    if parts.len() == 0 {
        Ok(Map::empty())
    } else {
        match query_parts(parts.drop_last()) {
            Err(f) => Err(f),
            Ok(m) => match query_part(parts.last()) {
                Err(f) => Err(f),
                Ok(nv) => Ok(m.insert(nv.0, nv.1)),
            },
        }
    }
}

/// What the query string `s` gives.
pub open spec fn query_outcome(s: Seq<char>) -> Result<Map<Seq<char>, Seq<char>>, QueryFault> {
    query_parts(split(s, seq!['&']))
}

/// The error `e` reports the fault `f`.
pub open spec fn reports_query_fault(e: SerwerError, f: QueryFault) -> bool {
    match f {
        QueryFault::Malformed(p) => e matches SerwerError::InvalidQueryParam(x) && x@ == p,
        QueryFault::Characters(p) => e matches SerwerError::InvalidQueryParamCharacters(x) && x@ == p,
        QueryFault::Truncated(v) => e matches SerwerError::DecodeError(x) && x@ == v,
        QueryFault::BadDigits => e matches SerwerError::ParseIntError(x) && x@ == invalid_digit_message(),
    }
}

/// How `from_string` answers the query string `s`.
pub open spec fn query_result(s: Seq<char>, r: Result<QueryParams, SerwerError>) -> bool {
    match query_outcome(s) {
        Ok(m) => r matches Ok(q) && q.wf() && q@ == m,
        Err(f) => r matches Err(e) && reports_query_fault(e, f),
    }
}

impl View for QueryParams {
    type V = Map<Seq<char>, Seq<char>>;

    closed spec fn view(&self) -> Map<Seq<char>, Seq<char>> {
        self.query_params@.map_values(|v: String| v@)
    }
}

fn part_fault(part: &Vec<char>, f: Ghost<QueryFault>, kind: u8) -> (e: SerwerError)
    requires
        kind == 0 ==> f@ == QueryFault::Malformed(part@),
        kind != 0 ==> f@ == QueryFault::Characters(part@),
    ensures
        reports_query_fault(e, f@),
{
    if kind == 0 {
        SerwerError::InvalidQueryParam(string_of(part.as_slice()))
    } else {
        SerwerError::InvalidQueryParamCharacters(string_of(part.as_slice()))
    }
}

/// Reads one `name=value` part.
fn read_part(part: &Vec<char>) -> (r: Result<(String, String), SerwerError>)
    ensures
        match query_part(part@) {
            Ok(nv) => r matches Ok(x) && x.0@ == nv.0 && x.1@ == nv.1,
            Err(f) => r matches Err(e) && reports_query_fault(e, f),
        },
{
    let sep = single('=');
    let eq = match find_exec(part, sep.as_slice(), 0) {
        None => return Err(part_fault(part, Ghost(query_part(part@)->Err_0), 0)),
        Some(p) => p,
    };
    proof {
        lemma_find_from_bounds(part@, seq!['='], 0);
        assert(occurs_at(part@, seq!['='], eq as int));
    }
    let n = part.len();
    let name = slice_chars(part, 0, eq);
    let raw_value = slice_chars(part, eq + 1, n);
    let value = trim_exec(&raw_value);
    if name.len() == 0 || value.len() == 0 {
        return Err(part_fault(part, Ghost(query_part(part@)->Err_0), 0));
    }
    if !all_in_class(&name, CharClass::Unreserved) || !all_in_class(&value, CharClass::RawQueryValue) {
        return Err(part_fault(part, Ghost(query_part(part@)->Err_0), 1));
    }
    let value_string = string_of(value.as_slice());
    match decode(value_string.as_str()) {
        Err(e) => Err(e),
        Ok(decoded) => {
            let d = chars_of(decoded.as_str());
            if !all_in_class(&d, CharClass::QueryValue) {
                Err(part_fault(part, Ghost(query_part(part@)->Err_0), 1))
            } else {
                Ok((string_of(name.as_slice()), decoded))
            }
        },
    }
}

impl QueryParams {
    /// The entries are kept in key order.
    pub closed spec fn wf(&self) -> bool {
        self.query_params.wf()
    }

    /// No parameters.
    pub fn new() -> (r: QueryParams)
        ensures
            r.wf(),
            r@ == Map::<Seq<char>, Seq<char>>::empty(),
    {
        let r = QueryParams { query_params: SortedMap::new() };
        assert(r@ =~= Map::<Seq<char>, Seq<char>>::empty());
        r
    }

    /// Reads a query string: `&`-separated `name=value` parts, each value
    /// trimmed, checked and percent-decoded (`+` reads as a space).
    pub fn from_string(string: &str) -> (r: Result<QueryParams, SerwerError>)
        ensures
            query_result(string@, r),
    {
        let s = chars_of(string);
        QueryParams::from_chars(&s)
    }

    pub fn from_chars(s: &Vec<char>) -> (r: Result<QueryParams, SerwerError>)
        ensures
            query_result(s@, r),
    {
        let sep = single('&');
        let parts = split_exec(s, sep.as_slice());
        let ghost all = split(s@, seq!['&']);
        let mut map: SortedMap<String> = SortedMap::new();
        let mut i: usize = 0;
        assert(all.subrange(0, 0).len() == 0);
        assert(map@.map_values(|v: String| v@) =~= Map::<Seq<char>, Seq<char>>::empty());
        while i < parts.len()
            invariant
                all == split(s@, seq!['&']),
                parts@.len() == all.len(),
                forall|j: int| 0 <= j < parts@.len() ==> #[trigger] parts@[j]@ == all[j],
                i <= parts@.len(),
                map.wf(),
                query_parts(all.subrange(0, i as int)) == Ok::<Map<Seq<char>, Seq<char>>, QueryFault>(map@.map_values(|v: String| v@)),
            decreases parts@.len() - i,
        {
            assert(all.subrange(0, i + 1).drop_last() =~= all.subrange(0, i as int));
            assert(all.subrange(0, i + 1).last() == all[i as int]);
            assert(parts@[i as int]@ == all[i as int]);
            match read_part(&parts[i]) {
                Err(e) => {
                    assert(query_parts(all.subrange(0, i + 1)) == Err::<Map<Seq<char>, Seq<char>>, QueryFault>(query_part(all[i as int])->Err_0));
                    assert(query_parts(all) == query_parts(all.subrange(0, i + 1))) by {
                        lemma_query_parts_error(all, i as int + 1);
                    }
                    return Err(e);
                },
                Ok((name, value)) => {
                    let ghost before = map@.map_values(|v: String| v@);
                    map.insert(name, value);
                    assert(map@.map_values(|v: String| v@) =~= before.insert(name@, value@));
                },
            }
            i += 1;
        }
        assert(all.subrange(0, all.len() as int) =~= all);
        let r = QueryParams { query_params: map };
        Ok(r)
    }

    /// The decoded value of the parameter `key`.
    pub fn get_query_param(&self, key: &str) -> (r: Option<&String>)
        requires
            self.wf(),
        ensures
            match r {
                Some(v) => self@.contains_key(key@) && self@[key@] == v@,
                None => !self@.contains_key(key@),
            },
    {
        self.query_params.get(key)
    }
}

/// Once a prefix of the parts fails, every longer prefix fails the same way.
proof fn lemma_query_parts_error(parts: Seq<Seq<char>>, n: int)
    requires
        0 < n <= parts.len(),
        query_parts(parts.subrange(0, n)) is Err,
    ensures
        query_parts(parts) == query_parts(parts.subrange(0, n)),
    decreases parts.len() - n,
{
    if n < parts.len() {
        assert(parts.subrange(0, n + 1).drop_last() =~= parts.subrange(0, n));
        lemma_query_parts_error(parts, n + 1);
    } else {
        assert(parts.subrange(0, n) =~= parts);
    }
}

} // verus!
