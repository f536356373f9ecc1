//! Paths: parsing, and matching a concrete path against a route pattern.

use crate::error::SerwerError;
use crate::params::Params;
use crate::query_params::{query_outcome, reports_query_fault, QueryParams};
use crate::segment::{segment_outcome, segment_result, Segment, SegmentOutcome};
use crate::text::{
    chars_of, find, find_exec, lemma_find_from_bounds, same_text, single, slice_chars, split,
    split_exec,
};
use vstd::prelude::*;

verus! {

/// A path: the text it was read from, its segments and the parameters of its query string.
#[derive(Debug, Clone, PartialEq, Eq)]
pub struct Path {
    string: String,
    segments: Vec<Segment>,
    query_params: QueryParams,
}

/// Segments as (text, names a parameter) pairs.
pub type SegmentsView = Seq<(Seq<char>, bool)>;

/// `s` up to its first `#`, which starts a fragment.
pub open spec fn without_fragment(s: Seq<char>) -> Seq<char> {
    let h = find(s, seq!['#']);
    if h < 0 {
        s
    } else {
        s.subrange(0, h)
    }
}

/// The part of `s` before its query string and fragment.
pub open spec fn path_text(s: Seq<char>) -> Seq<char> {
    let b = without_fragment(s);
    let q = find(b, seq!['?']);
    if q < 0 {
        b
    } else {
        b.subrange(0, q)
    }
}

/// The query string of `s`, if it has one.
pub open spec fn query_text(s: Seq<char>) -> Option<Seq<char>> {
    let b = without_fragment(s);
    let q = find(b, seq!['?']);
    if q < 0 {
        None
    } else {
        Some(b.subrange(q + 1, b.len() as int))
    }
}

/// The segments that the raw parts give, read left to right, or the first
/// part refused (an empty part is refused).
pub open spec fn read_segments(parts: Seq<Seq<char>>) -> Result<SegmentsView, Seq<char>>
    decreases parts.len(),
{
    if parts.len() == 0 {
        Ok(seq![])
    } else {
        match read_segments(parts.drop_last()) {
            Err(p) => Err(p),
            Ok(segs) => if parts.last().len() == 0 {
                Err(parts.last())
            } else {
                match segment_outcome(parts.last()) {
                    SegmentOutcome::Parsed(t, p) => Ok(segs.push((t, p))),
                    _ => Err(parts.last()),
                }
            },
        }
    }
}

/// The segments of a path text that starts with `/`: none for `/` alone.
pub open spec fn path_segments(p: Seq<char>) -> Result<SegmentsView, Seq<char>> {
    let rest = p.subrange(1, p.len() as int);
    if rest.len() == 0 {
        Ok(seq![])
    } else {
        read_segments(split(rest, seq!['/']))
    }
}

/// Two parameter segments share a name.
pub open spec fn has_duplicate_params(segs: SegmentsView) -> bool {
    exists|i: int, j: int|
        0 <= i < j < segs.len() && #[trigger] segs[i].1 && #[trigger] segs[j].1 && segs[i].0
            == segs[j].0
}

/// Some segment names a parameter.
pub open spec fn has_param(segs: SegmentsView) -> bool {
    exists|i: int| 0 <= i < segs.len() && #[trigger] segs[i].1
}

/// How `from_string` answers the raw path `s`.
pub open spec fn path_result(s: Seq<char>, r: Result<Path, SerwerError>) -> bool {
    let p = path_text(s);
    match query_text(s) {
        Some(q) if query_outcome(q) is Err => r matches Err(e) && reports_query_fault(
            e,
            query_outcome(q)->Err_0,
        ),
        _ => if p.len() == 0 || p[0] != '/' {
            r matches Err(SerwerError::PathMissingLeadingSlash(e)) && e@ == s
        } else {
            match path_segments(p) {
                Err(part) => if part.len() == 0 {
                    r matches Err(SerwerError::InvalidPathSlashes)
                } else {
                    r is Err && segment_result(part, Err(r->Err_0))
                },
                Ok(segs) => if has_duplicate_params(segs) {
                    r matches Err(SerwerError::PathContainsDuplicateParams(e)) && e@ == s
                } else {
                    r matches Ok(path) && path.wf() && path.raw() == s && path.segments()
                        == segs && path.query() == expected_query(s)
                },
            }
        },
    }
}

/// The query parameters that `s` carries when its query string is accepted.
pub open spec fn expected_query(s: Seq<char>) -> Map<Seq<char>, Seq<char>> {
    match query_text(s) {
        Some(q) => query_outcome(q)->Ok_0,
        None => Map::empty(),
    }
}

/// The query string of `s` is accepted, and `p` is its path text, starting with `/`.
spec fn head_accepted(s: Seq<char>, p: Seq<char>, query: &QueryParams) -> bool {
    &&& match query_text(s) {
        Some(q) => query_outcome(q) is Ok,
        None => true,
    }
    &&& p == path_text(s)
    &&& p.len() > 0 && p[0] == '/'
    &&& query.wf()
    &&& query@ == expected_query(s)
}

/// Whether two segment lists match: same length, not both with parameters,
/// and equal text wherever neither side is a parameter.
pub open spec fn paths_match(a: SegmentsView, b: SegmentsView) -> bool {
    a.len() == b.len() && !(has_param(a) && has_param(b)) && forall|i: int|
        0 <= i < a.len() ==> #[trigger] a[i].1 || b[i].1 || a[i].0 == b[i].0
}

/// The parameters bound by the first `n` positions: each parameter segment
/// takes the text at the same position on the other side.
pub open spec fn bindings(a: SegmentsView, b: SegmentsView, n: int) -> Map<Seq<char>, Seq<char>>
    decreases n,
{
    if n <= 0 {
        Map::empty()
    } else {
        let m = bindings(a, b, n - 1);
        let i = n - 1;
        if a[i].1 {
            m.insert(a[i].0, b[i].0)
        } else if b[i].1 {
            m.insert(b[i].0, a[i].0)
        } else {
            m
        }
    }
}

impl Path {
    /// The segments carry no duplicate parameter names, and the query map is in order.
    pub closed spec fn wf(&self) -> bool {
        self.query_params.wf() && !has_duplicate_params(self.segments())
    }

    /// The text the path was read from.
    pub closed spec fn raw(&self) -> Seq<char> {
        self.string@
    }

    pub closed spec fn segments(&self) -> SegmentsView {
        self.segments@.map_values(|s: Segment| s@)
    }

    /// The decoded query parameters.
    pub closed spec fn query(&self) -> Map<Seq<char>, Seq<char>> {
        self.query_params@
    }

    /// Reads a path: a fragment (`#...`) is dropped, a query string (`?...`)
    /// is read into query parameters, and the rest must start with `/` and
    /// hold non-empty `/`-separated segments (`/` alone has none). Two
    /// parameters of the same name are refused.
    pub fn from_string(string: &str) -> (r: Result<Path, SerwerError>)
        ensures
            path_result(string@, r),
    {
        let s = chars_of(string);
        let hash = single('#');
        let before = match find_exec(&s, hash.as_slice(), 0) {
            None => slice_chars(&s, 0, s.len()),
            Some(h) => {
                proof {
                    lemma_find_from_bounds(s@, seq!['#'], 0);
                }
                slice_chars(&s, 0, h)
            },
        };
        assert(s@.subrange(0, s@.len() as int) =~= s@);
        assert(before@ == without_fragment(string@));
        let question = single('?');
        let (p, query_params) = match find_exec(&before, question.as_slice(), 0) {
            None => (slice_chars(&before, 0, before.len()), QueryParams::new()),
            Some(q) => {
                proof {
                    lemma_find_from_bounds(before@, seq!['?'], 0);
                }
                let qs = slice_chars(&before, q + 1, before.len());
                match QueryParams::from_chars(&qs) {
                    Err(e) => return Err(e),
                    Ok(qp) => (slice_chars(&before, 0, q), qp),
                }
            },
        };
        assert(before@.subrange(0, before@.len() as int) =~= before@);
        assert(p@ == path_text(string@));
        if p.len() == 0 || p[0] != '/' {
            return Err(SerwerError::PathMissingLeadingSlash(String::from_str(string)));
        }
        let rest = slice_chars(&p, 1, p.len());
        assert(head_accepted(string@, p@, &query_params));
        let mut segments: Vec<Segment> = Vec::new();
        if rest.len() > 0 {
            let slash = single('/');
            let parts = split_exec(&rest, slash.as_slice());
            let ghost all = split(rest@, seq!['/']);
            let mut i: usize = 0;
            assert(all.subrange(0, 0) =~= Seq::<Seq<char>>::empty());
            assert(segments@.map_values(|s: Segment| s@) =~= Seq::<(Seq<char>, bool)>::empty());
            while i < parts.len()
                invariant
                    head_accepted(string@, p@, &query_params),
                    rest@ == p@.subrange(1, p@.len() as int),
                    rest@.len() > 0,
                    all == split(rest@, seq!['/']),
                    parts@.len() == all.len(),
                    forall|j: int| 0 <= j < parts@.len() ==> #[trigger] parts@[j]@ == all[j],
                    i <= parts@.len(),
                    read_segments(all.subrange(0, i as int)) == Ok::<SegmentsView, Seq<char>>(
                        segments@.map_values(|s: Segment| s@),
                    ),
                decreases parts@.len() - i,
            {
                assert(all.subrange(0, i + 1).drop_last() =~= all.subrange(0, i as int));
                assert(all.subrange(0, i + 1).last() == all[i as int]);
                assert(parts@[i as int]@ == all[i as int]);
                if parts[i].len() == 0 {
                    proof {
                        lemma_read_segments_error(all, i as int + 1);
                    }
                    return Err(SerwerError::InvalidPathSlashes);
                }
                match Segment::from_chars(&parts[i]) {
                    Err(e) => {
                        proof {
                            lemma_read_segments_error(all, i as int + 1);
                        }
                        return Err(e);
                    },
                    Ok(seg) => {
                        let ghost before_segs = segments@.map_values(|s: Segment| s@);
                        segments.push(seg);
                        assert(segments@.map_values(|s: Segment| s@) =~= before_segs.push(seg@));
                    },
                }
                i += 1;
            }
            assert(all.subrange(0, all.len() as int) =~= all);
        } else {
            assert(segments@.map_values(|s: Segment| s@) =~= Seq::<(Seq<char>, bool)>::empty());
        }
        let ghost segs = segments@.map_values(|s: Segment| s@);
        assert(path_segments(p@) == Ok::<SegmentsView, Seq<char>>(segs));
        let mut i: usize = 0;
        while i < segments.len()
            invariant
                head_accepted(string@, p@, &query_params),
                path_segments(p@) == Ok::<SegmentsView, Seq<char>>(segs),
                segs == segments@.map_values(|s: Segment| s@),
                i <= segments@.len(),
                forall|a: int, b: int|
                    0 <= a < b < segs.len() && a < i ==> !(#[trigger] segs[a].1 && #[trigger] segs[b].1
                        && segs[a].0 == segs[b].0),
            decreases segments@.len() - i,
        {
            let mut j: usize = i + 1;
            while j < segments.len()
                invariant
                    head_accepted(string@, p@, &query_params),
                    path_segments(p@) == Ok::<SegmentsView, Seq<char>>(segs),
                    segs == segments@.map_values(|s: Segment| s@),
                    i < segments@.len(),
                    i + 1 <= j <= segments@.len(),
                    forall|a: int, b: int|
                        0 <= a < b < segs.len() && a < i ==> !(#[trigger] segs[a].1
                            && #[trigger] segs[b].1 && segs[a].0 == segs[b].0),
                    forall|b: int|
                        i < b < j ==> !(segs[i as int].1 && #[trigger] segs[b].1 && segs[i as int].0
                            == segs[b].0),
                decreases segments@.len() - j,
            {
                if segments[i].is_param() && segments[j].is_param() && same_text(
                    segments[i].get_string().as_str(),
                    segments[j].get_string().as_str(),
                ) {
                    assert(segs[i as int].1 && segs[j as int].1 && segs[i as int].0 == segs[j as int].0);
                    return Err(SerwerError::PathContainsDuplicateParams(String::from_str(string)));
                }
                j += 1;
            }
            i += 1;
        }
        let path = Path { string: String::from_str(string), segments, query_params };
        assert(!has_duplicate_params(segs));
        Ok(path)
    }

    /// Matches this path against `other`, position by position. They match
    /// when they have as many segments, not both hold parameters, and their
    /// texts agree wherever neither side is a parameter; the parameters are
    /// then bound to the text opposite them.
    pub fn matches(&self, other: &Path) -> (r: (bool, Option<Params>))
        ensures
            r.0 == paths_match(self.segments(), other.segments()),
            r.0 ==> (r.1 matches Some(p) && p.wf() && p@ == bindings(
                self.segments(),
                other.segments(),
                self.segments().len() as int,
            )),
            !r.0 ==> r.1 is None,
    {
        let ghost a = self.segments();
        let ghost b = other.segments();
        if self.segments.len() != other.segments.len() || (self.contains_params()
            && other.contains_params()) {
            return (false, None);
        }
        let mut params = Params::new();
        let mut i: usize = 0;
        while i < self.segments.len()
            invariant
                a == self.segments(),
                b == other.segments(),
                a.len() == b.len(),
                self.segments@.len() == a.len(),
                other.segments@.len() == b.len(),
                !(has_param(a) && has_param(b)),
                i <= a.len(),
                params.wf(),
                params@ == bindings(a, b, i as int),
                forall|j: int| 0 <= j < i ==> #[trigger] a[j].1 || b[j].1 || a[j].0 == b[j].0,
            decreases a.len() - i,
        {
            let segment = &self.segments[i];
            let other_segment = &other.segments[i];
            assert(segment@ == a[i as int]);
            assert(other_segment@ == b[i as int]);
            let mut is_param = false;
            if segment.is_param() {
                is_param = true;
                params.set_param(segment.get_string().as_str(), other_segment.get_string().as_str());
            }
            if other_segment.is_param() {
                is_param = true;
                params.set_param(other_segment.get_string().as_str(), segment.get_string().as_str());
            }
            if !is_param && !same_text(segment.get_string().as_str(), other_segment.get_string().as_str()) {
                return (false, None);
            }
            i += 1;
        }
        (true, Some(params))
    }

    /// The text the path was read from.
    pub fn get_string(&self) -> (r: &String)
        ensures
            r@ == self.raw(),
    {
        &self.string
    }

    /// The segments, in order.
    pub fn get_segments(&self) -> (r: &Vec<Segment>)
        ensures
            r@.map_values(|s: Segment| s@) == self.segments(),
    {
        &self.segments
    }

    /// The query parameters.
    pub fn get_query_params(&self) -> (r: &QueryParams)
        ensures
            r@ == self.query(),
    {
        &self.query_params
    }

    /// Whether some segment names a parameter.
    pub fn contains_params(&self) -> (r: bool)
        ensures
            r == has_param(self.segments()),
    {
        let mut i: usize = 0;
        while i < self.segments.len()
            invariant
                i <= self.segments@.len(),
                self.segments@.len() == self.segments().len(),
                forall|j: int| 0 <= j < i ==> !(#[trigger] self.segments()[j]).1,
            decreases self.segments@.len() - i,
        {
            if self.segments[i].is_param() {
                assert(self.segments()[i as int].1);
                return true;
            }
            i += 1;
        }
        false
    }

    /// The decoded value of the query parameter `key`.
    pub fn get_query_param(&self, key: &str) -> (r: Option<&String>)
        requires
            self.wf(),
        ensures
            match r {
                Some(v) => self.query().contains_key(key@) && self.query()[key@] == v@,
                None => !self.query().contains_key(key@),
            },
    {
        self.query_params.get_query_param(key)
    }
}

/// Once a prefix of the parts is refused, every longer prefix is refused the same way.
proof fn lemma_read_segments_error(parts: Seq<Seq<char>>, n: int)
    requires
        0 < n <= parts.len(),
        read_segments(parts.subrange(0, n)) is Err,
    ensures
        read_segments(parts) == read_segments(parts.subrange(0, n)),
    decreases parts.len() - n,
{
    if n < parts.len() {
        assert(parts.subrange(0, n + 1).drop_last() =~= parts.subrange(0, n));
        lemma_read_segments_error(parts, n + 1);
    } else {
        assert(parts.subrange(0, n) =~= parts);
    }
}

} // verus!

verus! {

proof fn lemma_bindings_symmetric(a: SegmentsView, b: SegmentsView, n: int)
    requires
        0 <= n <= a.len(),
        a.len() == b.len(),
        forall|i: int| 0 <= i < n ==> !(#[trigger] a[i].1 && b[i].1),
    ensures
        bindings(a, b, n) == bindings(b, a, n),
    decreases n,
{
    if n > 0 {
        lemma_bindings_symmetric(a, b, n - 1);
        assert(!(a[n - 1].1 && b[n - 1].1));
    }
}

/// Matching is symmetric: a pattern matches a path exactly when the path
/// matches the pattern, and both ways bind the same parameters.
pub proof fn lemma_match_symmetric(pattern: Path, concrete: Path)
    ensures
        paths_match(pattern.segments(), concrete.segments()) == paths_match(
            concrete.segments(),
            pattern.segments(),
        ),
        paths_match(pattern.segments(), concrete.segments()) ==> bindings(
            pattern.segments(),
            concrete.segments(),
            pattern.segments().len() as int,
        ) == bindings(concrete.segments(), pattern.segments(), concrete.segments().len() as int),
{
    let a = pattern.segments();
    let b = concrete.segments();
    if paths_match(a, b) {
        assert forall|i: int| 0 <= i < a.len() ==> !(#[trigger] a[i].1 && b[i].1) by {
            if 0 <= i < a.len() && a[i].1 && b[i].1 {
                assert(has_param(a));
                assert(has_param(b));
            }
        }
        lemma_bindings_symmetric(a, b, a.len() as int);
    }
    assert(paths_match(a, b) ==> paths_match(b, a));
    assert(paths_match(b, a) ==> paths_match(a, b));
}

/// Paths with different numbers of segments never match.
pub proof fn lemma_match_arity(pattern: Path, concrete: Path)
    requires
        pattern.segments().len() != concrete.segments().len(),
    ensures
        !paths_match(pattern.segments(), concrete.segments()),
{
}

/// A query string does not change the path text that segments are read from.
pub proof fn lemma_query_text_isolated(r: Seq<char>, q: Seq<char>)
    requires
        forall|i: int| 0 <= i < r.len() ==> r[i] != '?' && r[i] != '#',
    ensures
        path_text(r + seq!['?'] + q) == r,
        path_text(r) == r,
{
    crate::text::lemma_find_char(r, '#', 0);
    crate::text::lemma_find_char(r, '?', 0);
    let s = r + seq!['?'] + q;
    crate::text::lemma_find_char(s, '#', 0);
    assert(s[r.len() as int] == '?');
    let b = without_fragment(s);
    assert(b.len() > r.len());
    assert forall|j: int| 0 <= j <= r.len() implies b[j] == s[j] by {}
    crate::text::lemma_find_char(b, '?', 0);
    assert(find(b, seq!['?']) == r.len());
    assert(b.subrange(0, r.len() as int) =~= r);
}

/// Paths that differ only by a query string have the same segments, and so
/// match the same patterns with the same bindings.
pub proof fn lemma_query_isolation(r: Seq<char>, q: Seq<char>, with_query: Path, without: Path)
    requires
        forall|i: int| 0 <= i < r.len() ==> r[i] != '?' && r[i] != '#',
        path_result(r + seq!['?'] + q, Ok(with_query)),
        path_result(r, Ok(without)),
    ensures
        with_query.segments() == without.segments(),
{
    lemma_query_text_isolated(r, q);
}

} // verus!

verus! {

/// The raw path `s` is read without error.
pub open spec fn path_accepted(s: Seq<char>) -> bool {
    &&& match query_text(s) {
        Some(q) => query_outcome(q) is Ok,
        None => true,
    }
    &&& path_text(s).len() > 0 && path_text(s)[0] == '/'
    &&& path_segments(path_text(s)) is Ok
    &&& !has_duplicate_params(path_segments(path_text(s))->Ok_0)
}

pub proof fn lemma_path_accepted(s: Seq<char>, r: Result<Path, SerwerError>)
    requires
        path_result(s, r),
    ensures
        r is Ok <==> path_accepted(s),
{
}

} // verus!
