//! One `/`-separated component of a path.

use crate::decode::{percent_decode, unescape, Unescaped, invalid_digit_message};
use crate::error::SerwerError;
use crate::text::{all_in, all_in_class, chars_of, slice_chars, string_of, CharClass};
use vstd::prelude::*;

verus! {

/// A path segment: literal text, or the name of a parameter (written `<name>`).
#[derive(Debug, Clone, PartialEq, Eq)]
pub struct Segment {
    string: String,
    is_param: bool,
}

/// `s` is wrapped in `<` and `>`.
pub open spec fn bracketed(s: Seq<char>) -> bool {
    s.len() >= 2 && s[0] == '<' && s.last() == '>'
}

/// The part of a raw segment that names it: without the brackets of a parameter.
pub open spec fn segment_body(s: Seq<char>) -> Seq<char> {
    if bracketed(s) {
        s.subrange(1, s.len() - 1)
    } else {
        s
    }
}

/// The outcome of reading a raw segment.
pub enum SegmentOutcome {
    Parsed(Seq<char>, bool),
    InvalidCharacters,
    Truncated,
    BadDigits,
}

/// What reading the raw segment `s` gives: the decoded text and whether it
/// names a parameter, or why it is refused.
pub open spec fn segment_outcome(s: Seq<char>) -> SegmentOutcome {
    let body = segment_body(s);
    if !all_in(body, CharClass::RawSegment) {
        SegmentOutcome::InvalidCharacters
    } else {
        match unescape(body) {
            Unescaped::Truncated => SegmentOutcome::Truncated,
            Unescaped::BadDigits => SegmentOutcome::BadDigits,
            Unescaped::Text(t) => if all_in(t, CharClass::Segment) {
                SegmentOutcome::Parsed(t, bracketed(s))
            } else {
                SegmentOutcome::InvalidCharacters
            },
        }
    }
}

/// How `from_string` answers the raw segment `s`.
pub open spec fn segment_result(s: Seq<char>, r: Result<Segment, SerwerError>) -> bool {
    match segment_outcome(s) {
        SegmentOutcome::Parsed(t, p) => r matches Ok(seg) && seg@ == (t, p),
        SegmentOutcome::InvalidCharacters => r matches Err(
            SerwerError::InvalidPathSegmentCharacters(e),
        ) && e@ == s,
        SegmentOutcome::Truncated => r matches Err(SerwerError::DecodeError(e)) && e@
            == segment_body(s),
        SegmentOutcome::BadDigits => r matches Err(SerwerError::ParseIntError(e)) && e@
            == invalid_digit_message(),
    }
}

impl View for Segment {
    type V = (Seq<char>, bool);

    closed spec fn view(&self) -> (Seq<char>, bool) {
        (self.string@, self.is_param)
    }
}

impl Segment {
    /// Reads one raw path segment: `<name>` names a parameter, anything else
    /// is literal. The text is percent-decoded; characters outside the
    /// allowed sets, before or after decoding, are refused.
    pub fn from_string(string: &str) -> (r: Result<Segment, SerwerError>)
        ensures
            segment_result(string@, r),
    {
        let s = chars_of(string);
        Segment::from_chars(&s)
    }

    pub fn from_chars(s: &Vec<char>) -> (r: Result<Segment, SerwerError>)
        ensures
            segment_result(s@, r),
    {
        let n = s.len();
        let is_param = n >= 2 && s[0] == '<' && s[n - 1] == '>';
        let body = if is_param {
            slice_chars(s, 1, n - 1)
        } else {
            slice_chars(s, 0, n)
        };
        assert(s@.subrange(0, n as int) =~= s@);
        if !all_in_class(&body, CharClass::RawSegment) {
            return Err(SerwerError::InvalidPathSegmentCharacters(string_of(s.as_slice())));
        }
        let body_string = string_of(body.as_slice());
        match percent_decode(body_string.as_str()) {
            Err(e) => Err(e),
            Ok(text) => {
                let decoded = chars_of(text.as_str());
                if !all_in_class(&decoded, CharClass::Segment) {
                    Err(SerwerError::InvalidPathSegmentCharacters(string_of(s.as_slice())))
                } else {
                    Ok(Segment { string: text, is_param })
                }
            },
        }
    }

    /// The decoded text, or the parameter's name.
    pub fn get_string(&self) -> (r: &String)
        ensures
            r@ == self@.0,
    {
        &self.string
    }

    /// Whether this segment names a parameter.
    pub fn is_param(&self) -> (r: bool)
        ensures
            r == self@.1,
    {
        self.is_param
    }
}

/// Characters that read as themselves in a segment: unreserved ones.
pub open spec fn plain_segment_text(s: Seq<char>) -> bool {
    all_in(s, CharClass::Unreserved)
}

proof fn lemma_unescape_plain(s: Seq<char>)
    requires
        plain_segment_text(s),
    ensures
        unescape(s) == Unescaped::Text(s),
    decreases s.len(),
{
    if s.len() > 0 {
        assert(crate::text::in_class(s[0], CharClass::Unreserved));
        assert(plain_segment_text(s.drop_first())) by {
            assert forall|i: int| 0 <= i < s.drop_first().len() implies #[trigger] crate::text::in_class(
                s.drop_first()[i],
                CharClass::Unreserved,
            ) by {
                assert(crate::text::in_class(s[i + 1], CharClass::Unreserved));
            }
        }
        lemma_unescape_plain(s.drop_first());
        assert(s[0] != '%');
        assert(seq![s[0]] + s.drop_first() =~= s);
    } else {
        assert(s =~= seq![]);
    }
}

/// Literal text made of unreserved characters reads back as itself, and
/// wrapped in `<` and `>` it reads as the parameter of that name.
pub proof fn lemma_segment_round_trip(s: Seq<char>)
    requires
        plain_segment_text(s),
    ensures
        segment_outcome(s) == SegmentOutcome::Parsed(s, false),
        segment_outcome(seq!['<'] + s + seq!['>']) == SegmentOutcome::Parsed(s, true),
{
    lemma_unescape_plain(s);
    assert forall|i: int| 0 <= i < s.len() implies #[trigger] crate::text::in_class(s[i], CharClass::RawSegment) by {
        assert(crate::text::in_class(s[i], CharClass::Unreserved));
    }
    assert forall|i: int| 0 <= i < s.len() implies #[trigger] crate::text::in_class(s[i], CharClass::Segment) by {
        assert(crate::text::in_class(s[i], CharClass::Unreserved));
    }
    if s.len() > 0 {
        assert(crate::text::in_class(s[0], CharClass::Unreserved));
    }
    assert(all_in(s, CharClass::RawSegment));
    assert(all_in(s, CharClass::Segment));
    assert(!bracketed(s));
    assert(segment_body(s) == s);
    let w = seq!['<'] + s + seq!['>'];
    assert(w.subrange(1, w.len() - 1) =~= s);
    assert(bracketed(w));
    assert(segment_body(w) == s);
}

} // verus!
