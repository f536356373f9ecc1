//! Percent-decoding of URL components.

use crate::error::SerwerError;
use crate::text::{byte_char, char_of_byte, chars_of, string_of};
use vstd::prelude::*;

verus! {

/// The value of a hexadecimal digit.
pub open spec fn hex_value(c: char) -> Option<u8> {
    if '0' <= c && c <= '9' {
        Some((c as u32 - '0' as u32) as u8)
    } else if 'a' <= c && c <= 'f' {
        Some((c as u32 - 'a' as u32 + 10) as u8)
    } else if 'A' <= c && c <= 'F' {
        Some((c as u32 - 'A' as u32 + 10) as u8)
    } else {
        None
    }
}

/// The byte that the two hexadecimal digits of an escape spell.
pub open spec fn hex_byte(c0: char, c1: char) -> Option<u8> {
    match (hex_value(c0), hex_value(c1)) {
        (Some(a), Some(b)) => Some((16 * a + b) as u8),
        _ => None,
    }
}

/// The outcome of replacing `%XX` escapes.
pub enum Unescaped {
    Text(Seq<char>),
    /// An escape is cut short by the end of the text.
    Truncated,
    /// An escape holds something other than two hexadecimal digits.
    BadDigits,
}

/// `s` with each `%XX` escape replaced by the character of byte `XX`, read left to right.
pub open spec fn unescape(s: Seq<char>) -> Unescaped
    decreases s.len(),
{
    if s.len() == 0 {
        Unescaped::Text(seq![])
    } else if s[0] == '%' {
        if s.len() < 3 {
            Unescaped::Truncated
        } else {
            match hex_byte(s[1], s[2]) {
                None => Unescaped::BadDigits,
                Some(b) => prepend(seq![byte_char(b)], unescape(s.subrange(3, s.len() as int))),
            }
        }
    } else {
        prepend(seq![s[0]], unescape(s.drop_first()))
    }
}

pub open spec fn prepend(p: Seq<char>, u: Unescaped) -> Unescaped {
    match u {
        Unescaped::Text(t) => Unescaped::Text(p + t),
        other => other,
    }
}

/// `s` with every `+` turned into a space.
pub open spec fn plus_to_space(s: Seq<char>) -> Seq<char> {
    s.map_values(|c: char| if c == '+' { ' ' } else { c })
}

/// The message that a failed base-16 read of an escape carries.
pub open spec fn invalid_digit_message() -> Seq<char> {
    "invalid digit found in string"@
}

fn hex_digit(c: char) -> (r: Option<u8>)
    ensures
        r == hex_value(c),
{
    if '0' <= c && c <= '9' {
        Some((c as u32 - '0' as u32) as u8)
    } else if 'a' <= c && c <= 'f' {
        Some((c as u32 - 'a' as u32 + 10) as u8)
    } else if 'A' <= c && c <= 'F' {
        Some((c as u32 - 'A' as u32 + 10) as u8)
    } else {
        None
    }
}

fn escape_byte(c0: char, c1: char) -> (r: Option<u8>)
    ensures
        r == hex_byte(c0, c1),
{
    match (hex_digit(c0), hex_digit(c1)) {
        (Some(a), Some(b)) => Some(16 * a + b),
        _ => None,
    }
}

proof fn lemma_prepend_twice(p: Seq<char>, q: Seq<char>, u: Unescaped)
    ensures
        prepend(p, prepend(q, u)) == prepend(p + q, u),
{
    match u {
        Unescaped::Text(t) => {
            assert(p + (q + t) =~= (p + q) + t);
        },
        _ => {},
    }
}

/// Replaces each `%XX` escape of `string` by the character of byte `XX`,
/// and nothing else. An escape cut short is a `DecodeError` carrying
/// `string`; one that is not two hexadecimal digits is a `ParseIntError`.
pub fn percent_decode(string: &str) -> (r: Result<String, SerwerError>)
    ensures
        match unescape(string@) {
            Unescaped::Text(t) => r matches Ok(d) && d@ == t,
            Unescaped::Truncated => r matches Err(SerwerError::DecodeError(e)) && e@ == string@,
            Unescaped::BadDigits => r matches Err(SerwerError::ParseIntError(e)) && e@
                == invalid_digit_message(),
        },
{
    let s = chars_of(string);
    let n = s.len();
    let mut out: Vec<char> = Vec::new();
    let mut i: usize = 0;
    assert(s@.subrange(0, n as int) =~= s@);
    assert(out@ + seq![] =~= out@);
    while i < n
        invariant
            n == s@.len(),
            s@ == string@,
            i <= n,
            unescape(s@) == prepend(out@, unescape(s@.subrange(i as int, n as int))),
        decreases n - i,
    {
        let ghost rest = s@.subrange(i as int, n as int);
        if s[i] == '%' {
            if n - i < 3 {
                proof {
                    lemma_prepend_twice(out@, seq![], unescape(rest));
                }
                return Err(SerwerError::DecodeError(String::from_str(string)));
            }
            match escape_byte(s[i + 1], s[i + 2]) {
                None => {
                    return Err(
                        SerwerError::ParseIntError(String::from_str("invalid digit found in string")),
                    );
                },
                Some(b) => {
                    let c = char_of_byte(b);
                    proof {
                        assert(rest.subrange(3, rest.len() as int) =~= s@.subrange(i + 3, n as int));
                        lemma_prepend_twice(out@, seq![c], unescape(s@.subrange(i + 3, n as int)));
                        assert(out@ + seq![c] =~= out@.push(c));
                    }
                    out.push(c);
                    i += 3;
                },
            }
        } else {
            let c = s[i];
            proof {
                assert(rest.drop_first() =~= s@.subrange(i + 1, n as int));
                lemma_prepend_twice(out@, seq![c], unescape(s@.subrange(i + 1, n as int)));
                assert(out@ + seq![c] =~= out@.push(c));
            }
            out.push(c);
            i += 1;
        }
    }
    assert(unescape(s@.subrange(n as int, n as int)) == Unescaped::Text(seq![]));
    assert(out@ + seq![] =~= out@);
    Ok(string_of(out.as_slice()))
}

/// Percent-decodes a query value: each `%XX` escape becomes the character
/// of byte `XX`, and then every `+` becomes a space. The errors are those of
/// `percent_decode`.
pub fn decode(string: &str) -> (r: Result<String, SerwerError>)
    ensures
        match unescape(string@) {
            Unescaped::Text(t) => r matches Ok(d) && d@ == plus_to_space(t),
            Unescaped::Truncated => r matches Err(SerwerError::DecodeError(e)) && e@ == string@,
            Unescaped::BadDigits => r matches Err(SerwerError::ParseIntError(e)) && e@
                == invalid_digit_message(),
        },
{
    let text = match percent_decode(string) {
        Ok(t) => t,
        Err(e) => return Err(e),
    };
    let out = chars_of(text.as_str());
    let mut spaced: Vec<char> = Vec::new();
    let mut j: usize = 0;
    while j < out.len()
        invariant
            j <= out@.len(),
            spaced@ == plus_to_space(out@.subrange(0, j as int)),
        decreases out@.len() - j,
    {
        let c = out[j];
        spaced.push(if c == '+' { ' ' } else { c });
        j += 1;
        assert(plus_to_space(out@.subrange(0, j as int)) =~= plus_to_space(out@.subrange(0, j - 1)).push(if c == '+' { ' ' } else { c }));
    }
    assert(out@.subrange(0, out@.len() as int) =~= out@);
    Ok(string_of(spaced.as_slice()))
}

} // verus!
