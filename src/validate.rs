//! A strict check of route pattern text: `/`-separated letters and digits,
//! or `<name>` parameters, with no slash at either end.

use crate::error::SerwerError;
use crate::text::{all_in, all_in_class, chars_of, single, slice_chars, split, split_exec, CharClass};
use vstd::prelude::*;

verus! {

/// What checking one part gives: nothing wrong, or the error.
pub open spec fn part_check(p: Seq<char>) -> Option<SerwerError> {
    if p.len() > 0 && p[0] == '<' {
        if !(p.last() == '>') || p.len() < 3 {
            Some(SerwerError::InvalidPathPart)
        } else if !all_in(p.subrange(1, p.len() - 1), CharClass::Alnum) {
            Some(SerwerError::InvalidPathCharacters)
        } else {
            None
        }
    } else if p.len() < 1 {
        Some(SerwerError::InvalidPathPart)
    } else if !all_in(p, CharClass::Alnum) {
        Some(SerwerError::InvalidPathCharacters)
    } else {
        None
    }
}

/// The first error among the parts, left to right.
pub open spec fn parts_check(parts: Seq<Seq<char>>) -> Option<SerwerError>
    decreases parts.len(),
{
    if parts.len() == 0 {
        None
    } else {
        match part_check(parts[0]) {
            Some(e) => Some(e),
            None => parts_check(parts.drop_first()),
        }
    }
}

/// What checking the pattern text `p` gives.
pub open spec fn path_check(p: Seq<char>) -> Option<SerwerError> {
    if p.len() > 0 && (p[0] == '/' || p.last() == '/') {
        Some(SerwerError::InvalidPathSlashes)
    } else {
        parts_check(split(p, seq!['/']))
    }
}

fn validate_path_part(p: &Vec<char>) -> (r: Result<(), SerwerError>)
    ensures
        match part_check(p@) {
            Some(e) => r == Err::<(), SerwerError>(e),
            None => r is Ok,
        },
{
    let n = p.len();
    if n > 0 && p[0] == '<' {
        if !(p[n - 1] == '>') || n < 3 {
            return Err(SerwerError::InvalidPathPart);
        }
        let inner = slice_chars(p, 1, n - 1);
        if !all_in_class(&inner, CharClass::Alnum) {
            return Err(SerwerError::InvalidPathCharacters);
        }
    } else {
        if n < 1 {
            return Err(SerwerError::InvalidPathPart);
        }
        if !all_in_class(p, CharClass::Alnum) {
            return Err(SerwerError::InvalidPathCharacters);
        }
    }
    Ok(())
}

/// Checks route pattern text written without a leading slash: no slash at
/// either end, no empty part, letters and digits only, and `<name>` parts
/// with a non-empty name.
pub fn validate_path(path: &str) -> (r: Result<(), SerwerError>)
    ensures
        match path_check(path@) {
            Some(e) => r == Err::<(), SerwerError>(e),
            None => r is Ok,
        },
{
    let s = chars_of(path);
    let n = s.len();
    if n > 0 && (s[0] == '/' || s[n - 1] == '/') {
        return Err(SerwerError::InvalidPathSlashes);
    }
    let slash = single('/');
    let parts = split_exec(&s, slash.as_slice());
    let ghost all = split(s@, seq!['/']);
    let mut i: usize = 0;
    assert(all.subrange(0, all.len() as int) =~= all);
    while i < parts.len()
        invariant
            s@ == path@,
            !(s@.len() > 0 && (s@[0] == '/' || s@.last() == '/')),
            all == split(s@, seq!['/']),
            parts@.len() == all.len(),
            forall|j: int| 0 <= j < parts@.len() ==> #[trigger] parts@[j]@ == all[j],
            i <= parts@.len(),
            parts_check(all) == parts_check(all.subrange(i as int, all.len() as int)),
        decreases parts@.len() - i,
    {
        assert(all.subrange(i as int, all.len() as int).drop_first() =~= all.subrange(i + 1, all.len() as int));
        assert(parts@[i as int]@ == all[i as int]);
        match validate_path_part(&parts[i]) {
            Err(e) => return Err(e),
            Ok(()) => {},
        }
        i += 1;
    }
    Ok(())
}

} // verus!
