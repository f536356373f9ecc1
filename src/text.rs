//! Character classes and small text utilities shared by the parsers.

use vstd::prelude::*;

verus! {

/// ASCII letters and digits.
pub open spec fn is_alnum(c: char) -> bool {
    ('a' <= c && c <= 'z') || ('A' <= c && c <= 'Z') || ('0' <= c && c <= '9')
}

/// Unreserved URI characters: letters, digits and `-._~`.
pub open spec fn is_unreserved(c: char) -> bool {
    is_alnum(c) || c == '-' || c == '.' || c == '_' || c == '~'
}

/// URI sub-delimiters: `!$&'()*+,;=`.
pub open spec fn is_sub_delim(c: char) -> bool {
    c == '!' || c == '$' || c == '&' || c == '\'' || c == '(' || c == ')' || c == '*' || c == '+'
        || c == ',' || c == ';' || c == '='
}

/// Characters of an HTTP token (header and cookie names).
pub open spec fn is_token_char(c: char) -> bool {
    is_alnum(c) || c == '!' || c == '#' || c == '$' || c == '%' || c == '&' || c == '\'' || c == '*'
        || c == '+' || c == '-' || c == '.' || c == '^' || c == '_' || c == '`' || c == '|' || c
        == '~'
}

/// Printable ASCII characters and space.
pub open spec fn is_printable(c: char) -> bool {
    ' ' <= c && c <= '~'
}

/// Characters allowed in a cookie value: printable ASCII without space, `"`, `,`, `;` and `\`.
pub open spec fn is_cookie_octet(c: char) -> bool {
    '!' <= c && c <= '~' && c != '"' && c != ',' && c != ';' && c != '\\'
}

/// The characters that `char::is_whitespace` accepts (Unicode White_Space).
pub open spec fn is_white_space(c: char) -> bool {
    ('\u{9}' <= c && c <= '\u{d}') || c == ' ' || c == '\u{85}' || c == '\u{a0}' || c == '\u{1680}'
        || ('\u{2000}' <= c && c <= '\u{200a}') || c == '\u{2028}' || c == '\u{2029}' || c
        == '\u{202f}' || c == '\u{205f}' || c == '\u{3000}'
}

pub fn alnum(c: char) -> (r: bool)
    ensures
        r == is_alnum(c),
{
    ('a' <= c && c <= 'z') || ('A' <= c && c <= 'Z') || ('0' <= c && c <= '9')
}

pub fn unreserved(c: char) -> (r: bool)
    ensures
        r == is_unreserved(c),
{
    alnum(c) || c == '-' || c == '.' || c == '_' || c == '~'
}

pub fn sub_delim(c: char) -> (r: bool)
    ensures
        r == is_sub_delim(c),
{
    c == '!' || c == '$' || c == '&' || c == '\'' || c == '(' || c == ')' || c == '*' || c == '+'
        || c == ',' || c == ';' || c == '='
}

pub fn token_char(c: char) -> (r: bool)
    ensures
        r == is_token_char(c),
{
    alnum(c) || c == '!' || c == '#' || c == '$' || c == '%' || c == '&' || c == '\'' || c == '*'
        || c == '+' || c == '-' || c == '.' || c == '^' || c == '_' || c == '`' || c == '|' || c
        == '~'
}

pub fn printable(c: char) -> (r: bool)
    ensures
        r == is_printable(c),
{
    ' ' <= c && c <= '~'
}

pub fn cookie_octet(c: char) -> (r: bool)
    ensures
        r == is_cookie_octet(c),
{
    '!' <= c && c <= '~' && c != '"' && c != ',' && c != ';' && c != '\\'
}

pub fn white_space(c: char) -> (r: bool)
    ensures
        r == is_white_space(c),
{
    ('\u{9}' <= c && c <= '\u{d}') || c == ' ' || c == '\u{85}' || c == '\u{a0}' || c == '\u{1680}'
        || ('\u{2000}' <= c && c <= '\u{200a}') || c == '\u{2028}' || c == '\u{2029}' || c
        == '\u{202f}' || c == '\u{205f}' || c == '\u{3000}'
}

// ---------------------------------------------------------------------------
// Conversions between strings and character vectors

/// The characters of `s`, one by one.
pub fn chars_of(s: &str) -> (r: Vec<char>)
    ensures
        r@ == s@,
{
    let n = s.unicode_len();
    let mut v: Vec<char> = Vec::new();
    let mut i: usize = 0;
    while i < n
        invariant
            n == s@.len(),
            i <= n,
            v@ == s@.subrange(0, i as int),
        decreases n - i,
    {
        v.push(s.get_char(i));
        i += 1;
    }
    assert(v@ =~= s@);
    v
}

/// Relies on `String::from_iter` over characters: the string holds exactly
/// the given characters, in order.
#[verifier::external_body]
pub fn string_of(chars: &[char]) -> (r: String)
    ensures
        r@ == chars@,
{
    String::from_iter(chars)
}

/// `s[from..to]` as a vector.
pub fn slice_chars(s: &Vec<char>, from: usize, to: usize) -> (r: Vec<char>)
    requires
        from <= to <= s@.len(),
    ensures
        r@ == s@.subrange(from as int, to as int),
{
    let mut v: Vec<char> = Vec::new();
    let mut i: usize = from;
    while i < to
        invariant
            from <= i <= to <= s@.len(),
            v@ == s@.subrange(from as int, i as int),
        decreases to - i,
    {
        v.push(s[i]);
        i += 1;
    }
    assert(v@ =~= s@.subrange(from as int, to as int));
    v
}

/// The string made of `a` followed by `b`.
pub fn concat(a: &str, b: &str) -> (r: String)
    ensures
        r@ == a@ + b@,
{
    let mut s = String::from_str(a);
    s.append(b);
    s
}

// ---------------------------------------------------------------------------
// Searching and splitting

/// `sep` occurs in `s` at position `i`.
pub open spec fn occurs_at(s: Seq<char>, sep: Seq<char>, i: int) -> bool {
    0 <= i && i + sep.len() <= s.len() && s.subrange(i, i + sep.len()) == sep
}

/// The first position at or after `i` where `sep` occurs in `s`, or -1.
pub open spec fn find_from(s: Seq<char>, sep: Seq<char>, i: int) -> int
    decreases s.len() + 1 - i,
{
    if i < 0 || i + sep.len() > s.len() {
        -1
    } else if occurs_at(s, sep, i) {
        i
    } else {
        find_from(s, sep, i + 1)
    }
}

/// The first position where `sep` occurs in `s`, or -1.
pub open spec fn find(s: Seq<char>, sep: Seq<char>) -> int {
    find_from(s, sep, 0)
}

/// `s` cut at every occurrence of the non-empty `sep`, as `str::split` does.
pub open spec fn split(s: Seq<char>, sep: Seq<char>) -> Seq<Seq<char>>
    decreases s.len(),
{
    let p = find(s, sep);
    if sep.len() == 0 || p < 0 || p + sep.len() > s.len() {
        seq![s]
    } else {
        seq![s.subrange(0, p)] + split(s.subrange(p + sep.len(), s.len() as int), sep)
    }
}

pub proof fn lemma_find_from_bounds(s: Seq<char>, sep: Seq<char>, i: int)
    ensures
        find_from(s, sep, i) == -1 || (i <= find_from(s, sep, i) && occurs_at(s, sep, find_from(s, sep, i))),
    decreases s.len() + 1 - i,
{
    if i < 0 || i + sep.len() > s.len() {
    } else if occurs_at(s, sep, i) {
    } else {
        lemma_find_from_bounds(s, sep, i + 1);
    }
}

/// Whether `sep` occurs in `s` at position `i`.
pub fn occurs_at_exec(s: &Vec<char>, sep: &[char], i: usize) -> (r: bool)
    requires
        i <= s@.len(),
    ensures
        r == occurs_at(s@, sep@, i as int),
{
    if sep.len() > s.len() - i {
        return false;
    }
    let n = s.len();
    let mut j: usize = 0;
    while j < sep.len()
        invariant
            n == s@.len(),
            i + sep@.len() <= s@.len(),
            j <= sep@.len(),
            forall|k: int| 0 <= k < j ==> s@[i + k] == sep@[k],
        decreases sep@.len() - j,
    {
        if s[i + j] != sep[j] {
            assert(s@.subrange(i as int, i + sep@.len())[j as int] != sep@[j as int]);
            return false;
        }
        j += 1;
    }
    assert(s@.subrange(i as int, i + sep@.len()) =~= sep@);
    true
}

/// The first position at or after `from` where `sep` occurs in `s`.
pub fn find_exec(s: &Vec<char>, sep: &[char], from: usize) -> (r: Option<usize>)
    requires
        from <= s@.len(),
        sep@.len() > 0,
    ensures
        match r {
            Some(p) => p == find_from(s@, sep@, from as int),
            None => find_from(s@, sep@, from as int) == -1,
        },
{
    let mut i: usize = from;
    while sep.len() <= s.len() - i
        invariant
            from <= i,
            i <= s@.len(),
            sep@.len() > 0,
            find_from(s@, sep@, from as int) == find_from(s@, sep@, i as int),
        decreases s@.len() - i,
    {
        if occurs_at_exec(s, sep, i) {
            return Some(i);
        }
        i += 1;
    }
    None
}

/// The pieces of `s` between occurrences of the non-empty `sep`.
pub fn split_exec(s: &Vec<char>, sep: &[char]) -> (r: Vec<Vec<char>>)
    requires
        sep@.len() > 0,
    ensures
        r@.len() == split(s@, sep@).len(),
        forall|i: int| 0 <= i < r@.len() ==> #[trigger] r@[i]@ == split(s@, sep@)[i],
{
    let mut pieces: Vec<Vec<char>> = Vec::new();
    let mut start: usize = 0;
    let ghost pieces_spec: Seq<Seq<char>> = seq![];
    assert(s@.subrange(0, s@.len() as int) =~= s@);
    assert(pieces_spec + split(s@, sep@) =~= split(s@, sep@));
    loop
        invariant
            sep@.len() > 0,
            start <= s@.len(),
            pieces@.len() == pieces_spec.len(),
            forall|i: int| 0 <= i < pieces@.len() ==> #[trigger] pieces@[i]@ == pieces_spec[i],
            pieces_spec + split(s@.subrange(start as int, s@.len() as int), sep@) == split(s@, sep@),
        decreases s@.len() - start,
    {
        let rest = slice_chars(s, start, s.len());
        match find_exec(&rest, sep, 0) {
            None => {
                proof {
                    assert(split(rest@, sep@) == seq![rest@]);
                    pieces_spec = pieces_spec.push(rest@);
                }
                pieces.push(rest);
                assert(pieces_spec =~= split(s@, sep@));
                return pieces;
            },
            Some(p) => {
                proof {
                    lemma_find_from_bounds(rest@, sep@, 0);
                }
                let piece = slice_chars(&rest, 0, p);
                proof {
                    let tail = rest@.subrange(p + sep@.len(), rest@.len() as int);
                    assert(split(rest@, sep@) == seq![piece@] + split(tail, sep@));
                    assert(tail =~= s@.subrange(start + p + sep@.len(), s@.len() as int));
                    assert(pieces_spec.push(piece@) + split(tail, sep@) =~= pieces_spec + (
                    seq![piece@] + split(tail, sep@)));
                    pieces_spec = pieces_spec.push(piece@);
                }
                pieces.push(piece);
                start = start + p + sep.len();
            },
        }
    }
}

// ---------------------------------------------------------------------------
// Trimming

pub open spec fn trim_start(s: Seq<char>) -> Seq<char>
    decreases s.len(),
{
    if s.len() > 0 && is_white_space(s[0]) {
        trim_start(s.drop_first())
    } else {
        s
    }
}

pub open spec fn trim_end(s: Seq<char>) -> Seq<char>
    decreases s.len(),
{
    if s.len() > 0 && is_white_space(s.last()) {
        trim_end(s.drop_last())
    } else {
        s
    }
}

/// `s` without leading and trailing whitespace, as `str::trim` gives it.
pub open spec fn trim(s: Seq<char>) -> Seq<char> {
    trim_end(trim_start(s))
}

pub fn trim_exec(s: &Vec<char>) -> (r: Vec<char>)
    ensures
        r@ == trim(s@),
{
    let mut a: usize = 0;
    assert(s@.subrange(0, s@.len() as int) =~= s@);
    while a < s.len() && white_space(s[a])
        invariant
            a <= s@.len(),
            trim_start(s@) == trim_start(s@.subrange(a as int, s@.len() as int)),
        decreases s@.len() - a,
    {
        assert(s@.subrange(a as int, s@.len() as int).drop_first() =~= s@.subrange(a + 1, s@.len() as int));
        a += 1;
    }
    assert(trim_start(s@) == s@.subrange(a as int, s@.len() as int));
    let mut b: usize = s.len();
    while b > a && white_space(s[b - 1])
        invariant
            a <= b <= s@.len(),
            trim(s@) == trim_end(s@.subrange(a as int, b as int)),
        decreases b,
    {
        assert(s@.subrange(a as int, b as int).drop_last() =~= s@.subrange(a as int, b - 1));
        b -= 1;
    }
    slice_chars(s, a, b)
}

} // verus!

verus! {

/// Whether `a` and `b` hold the same characters.
pub fn same_text(a: &str, b: &str) -> (r: bool)
    ensures
        r == (a@ == b@),
{
    let x = chars_of(a);
    let y = chars_of(b);
    same_chars(&x, &y)
}

/// Whether `x` and `y` hold the same characters.
pub fn same_chars(x: &Vec<char>, y: &Vec<char>) -> (r: bool)
    ensures
        r == (x@ == y@),
{
    if x.len() != y.len() {
        return false;
    }
    let mut i: usize = 0;
    while i < x.len()
        invariant
            x@.len() == y@.len(),
            i <= x@.len(),
            forall|j: int| 0 <= j < i ==> x@[j] == y@[j],
        decreases x@.len() - i,
    {
        if x[i] != y[i] {
            return false;
        }
        i += 1;
    }
    assert(x@ =~= y@);
    true
}

} // verus!

verus! {

/// The character whose code point is the byte `b` (as `b as char` gives it).
pub open spec fn byte_char(b: u8) -> char {
    b as char
}

pub fn char_of_byte(b: u8) -> (r: char)
    ensures
        r == byte_char(b),
{
    b as char
}

} // verus!

verus! {

/// The character sets that the parsers accept in their fields.
#[derive(Clone, Copy)]
pub enum CharClass {
    /// Letters and digits.
    Alnum,
    /// Unreserved URI characters.
    Unreserved,
    /// A path segment before decoding: unreserved or `%`.
    RawSegment,
    /// A path segment after decoding: unreserved, sub-delimiters, `:` and `@`.
    Segment,
    /// A query value before decoding: unreserved, `%` or `+`.
    RawQueryValue,
    /// A query value after decoding: unreserved, sub-delimiters, `:@/?#[]` and space.
    QueryValue,
    /// An HTTP token (header and cookie names).
    Token,
    /// Printable ASCII and space (header values).
    Printable,
    /// A cookie value.
    CookieOctet,
}

pub open spec fn in_class(c: char, k: CharClass) -> bool {
    match k {
        CharClass::Alnum => is_alnum(c),
        CharClass::Unreserved => is_unreserved(c),
        CharClass::RawSegment => is_unreserved(c) || c == '%',
        CharClass::Segment => is_unreserved(c) || is_sub_delim(c) || c == ':' || c == '@',
        CharClass::RawQueryValue => is_unreserved(c) || c == '%' || c == '+',
        CharClass::QueryValue => is_unreserved(c) || is_sub_delim(c) || c == ':' || c == '@' || c
            == '/' || c == '?' || c == '#' || c == '[' || c == ']' || c == ' ',
        CharClass::Token => is_token_char(c),
        CharClass::Printable => is_printable(c),
        CharClass::CookieOctet => is_cookie_octet(c),
    }
}

/// Every character of `s` is in the class `k`.
pub open spec fn all_in(s: Seq<char>, k: CharClass) -> bool {
    forall|i: int| 0 <= i < s.len() ==> #[trigger] in_class(s[i], k)
}

pub fn class_contains(c: char, k: CharClass) -> (r: bool)
    ensures
        r == in_class(c, k),
{
    match k {
        CharClass::Alnum => alnum(c),
        CharClass::Unreserved => unreserved(c),
        CharClass::RawSegment => unreserved(c) || c == '%',
        CharClass::Segment => unreserved(c) || sub_delim(c) || c == ':' || c == '@',
        CharClass::RawQueryValue => unreserved(c) || c == '%' || c == '+',
        CharClass::QueryValue => unreserved(c) || sub_delim(c) || c == ':' || c == '@' || c == '/'
            || c == '?' || c == '#' || c == '[' || c == ']' || c == ' ',
        CharClass::Token => token_char(c),
        CharClass::Printable => printable(c),
        CharClass::CookieOctet => cookie_octet(c),
    }
}

/// Whether every character of `s` is in the class `k`.
pub fn all_in_class(s: &Vec<char>, k: CharClass) -> (r: bool)
    ensures
        r == all_in(s@, k),
{
    let mut i: usize = 0;
    while i < s.len()
        invariant
            i <= s@.len(),
            forall|j: int| 0 <= j < i ==> #[trigger] in_class(s@[j], k),
        decreases s@.len() - i,
    {
        if !class_contains(s[i], k) {
            return false;
        }
        i += 1;
    }
    true
}

} // verus!

verus! {

/// The one-character sequence `c`.
pub fn single(c: char) -> (r: Vec<char>)
    ensures
        r@ == seq![c],
{
    let mut v: Vec<char> = Vec::new();
    v.push(c);
    assert(v@ =~= seq![c]);
    v
}

} // verus!

verus! {

/// The first occurrence at or after `i` of a single character: none before it, and it is `c`.
pub proof fn lemma_find_char(s: Seq<char>, c: char, i: int)
    requires
        0 <= i <= s.len(),
    ensures
        ({
            let h = find_from(s, seq![c], i);
            (h == -1 && forall|j: int| i <= j < s.len() ==> s[j] != c) || (i <= h < s.len() && s[h]
                == c && forall|j: int| i <= j < h ==> s[j] != c)
        }),
    decreases s.len() - i,
{
    if i < s.len() {
        if s[i] == c {
            assert(s.subrange(i, i + 1) =~= seq![c]);
        } else {
            assert(s.subrange(i, i + 1)[0] != seq![c][0]);
            lemma_find_char(s, c, i + 1);
        }
    }
}

} // verus!

verus! {

/// The decimal digit character of `d < 10`.
pub open spec fn digit_char(d: nat) -> char {
    ((d + 48) as u8) as char
}

/// The decimal numeral of `n`, without leading zeros.
pub open spec fn decimal(n: nat) -> Seq<char>
    decreases n,
{
    if n < 10 {
        seq![digit_char(n)]
    } else {
        decimal(n / 10) + seq![digit_char(n % 10)]
    }
}

/// Appends the decimal numeral of `n` to `out`.
pub fn push_decimal(n: u64, out: &mut Vec<char>)
    ensures
        final(out)@ == old(out)@ + decimal(n as nat),
    decreases n,
{
    if n >= 10 {
        push_decimal(n / 10, out);
    }
    let d = (n % 10) as u8;
    out.push((d + 48) as char);
    assert(final(out)@ =~= old(out)@ + decimal(n as nat));
}

/// The decimal numeral of `n`.
pub fn decimal_string(n: u64) -> (r: String)
    ensures
        r@ == decimal(n as nat),
{
    let mut v: Vec<char> = Vec::new();
    push_decimal(n, &mut v);
    assert(v@ =~= decimal(n as nat));
    string_of(v.as_slice())
}

} // verus!

verus! {

// ---------------------------------------------------------------------------
// Decimal numerals

/// The value of the decimal digits `s`.
pub open spec fn digits_value(s: Seq<char>) -> nat
    decreases s.len(),
{
    if s.len() == 0 {
        0
    } else {
        digits_value(s.drop_last()) * 10 + (s.last() as nat - 48) as nat
    }
}

pub open spec fn is_digit(c: char) -> bool {
    '0' <= c && c <= '9'
}

/// `d` is made of decimal digits only.
pub open spec fn all_digits(d: Seq<char>) -> bool {
    forall|i: int| 0 <= i < d.len() ==> #[trigger] is_digit(d[i])
}

/// The `usize` that `s` spells, as `str::parse::<usize>` reads it: an
/// optional `+`, then one or more decimal digits, of a value that fits.
pub open spec fn parse_usize(s: Seq<char>) -> Option<usize> {
    let d = if s.len() > 0 && s[0] == '+' {
        s.drop_first()
    } else {
        s
    };
    if d.len() == 0 || !all_digits(d) {
        None
    } else if digits_value(d) > usize::MAX {
        None
    } else {
        Some(digits_value(d) as usize)
    }
}

proof fn lemma_digits_value_grows(s: Seq<char>, n: int)
    requires
        0 <= n <= s.len(),
        forall|i: int| 0 <= i < s.len() ==> #[trigger] is_digit(s[i]),
    ensures
        digits_value(s.subrange(0, n)) <= digits_value(s),
    decreases s.len() - n,
{
    if n < s.len() {
        lemma_digits_value_grows(s, n + 1);
        assert(s.subrange(0, n + 1).drop_last() =~= s.subrange(0, n));
        assert(is_digit(s[n]));
    } else {
        assert(s.subrange(0, n) =~= s);
    }
}

/// Reads a `usize` as `str::parse::<usize>` does.
pub fn parse_usize_exec(s: &Vec<char>) -> (r: Option<usize>)
    ensures
        r == parse_usize(s@),
{
    let start: usize = if s.len() > 0 && s[0] == '+' {
        1
    } else {
        0
    };
    let ghost d = if s@.len() > 0 && s@[0] == '+' {
        s@.drop_first()
    } else {
        s@
    };
    assert(d =~= s@.subrange(start as int, s@.len() as int));
    if start == s.len() {
        return None;
    }
    let mut i: usize = start;
    while i < s.len()
        invariant
            start <= i <= s@.len(),
            d == s@.subrange(start as int, s@.len() as int),
            d == (if s@.len() > 0 && s@[0] == '+' { s@.drop_first() } else { s@ }),
            forall|j: int| start <= j < i ==> #[trigger] is_digit(s@[j]),
        decreases s@.len() - i,
    {
        if !('0' <= s[i] && s[i] <= '9') {
            assert(d[i - start] == s@[i as int]);
            assert(!is_digit(d[i - start]));
            assert(!all_digits(d));
            return None;
        }
        i += 1;
    }
    assert forall|j: int| 0 <= j < d.len() implies #[trigger] is_digit(d[j]) by {
        assert(is_digit(s@[j + start]));
    }
    let mut value: usize = 0;
    let mut k: usize = start;
    while k < s.len()
        invariant
            start <= k <= s@.len(),
            d == s@.subrange(start as int, s@.len() as int),
            d == (if s@.len() > 0 && s@[0] == '+' { s@.drop_first() } else { s@ }),
            forall|j: int| 0 <= j < d.len() ==> #[trigger] is_digit(d[j]),
            value as nat == digits_value(d.subrange(0, k - start)),
        decreases s@.len() - k,
    {
        assert(d.subrange(0, k - start + 1).drop_last() =~= d.subrange(0, k - start));
        assert(is_digit(d[k - start]));
        let digit = (s[k] as u32 - '0' as u32) as usize;
        assert(d[k - start] == s@[k as int]);
        assert(digits_value(d.subrange(0, k - start + 1)) == value * 10 + digit);
        let next = match value.checked_mul(10) {
            Some(v) => v.checked_add(digit),
            None => None,
        };
        match next {
            None => {
                proof {
                    lemma_digits_value_grows(d, k - start + 1);
                }
                return None;
            },
            Some(v) => {
                value = v;
            },
        }
        k += 1;
    }
    assert(d.subrange(0, d.len() as int) =~= d);
    Some(value)
}

// ---------------------------------------------------------------------------
// Lines of bytes

/// The first position at or after `i` holding a line feed, or -1.
pub open spec fn newline_from(b: Seq<u8>, i: int) -> int
    decreases b.len() - i,
{
    if i < 0 || i >= b.len() {
        -1
    } else if b[i] == 10 {
        i
    } else {
        newline_from(b, i + 1)
    }
}

/// Where the line starting at `pos` ends: after its line feed, or at the end of `b`.
pub open spec fn line_end(b: Seq<u8>, pos: int) -> int {
    let n = newline_from(b, pos);
    if n < 0 {
        b.len() as int
    } else {
        n + 1
    }
}

/// The bytes of the line starting at `pos`, with its line feed, and where the next line starts.
pub fn read_line(b: &[u8], pos: usize) -> (r: (Vec<u8>, usize))
    requires
        pos <= b@.len(),
    ensures
        r.1 == line_end(b@, pos as int),
        pos <= r.1 <= b@.len(),
        r.0@ == b@.subrange(pos as int, r.1 as int),
{
    let mut i: usize = pos;
    while i < b.len() && b[i] != 10
        invariant
            pos <= i <= b@.len(),
            newline_from(b@, pos as int) == newline_from(b@, i as int),
        decreases b@.len() - i,
    {
        i += 1;
    }
    let end = if i < b.len() {
        i + 1
    } else {
        i
    };
    let mut line: Vec<u8> = Vec::new();
    let mut j: usize = pos;
    while j < end
        invariant
            pos <= j <= end <= b@.len(),
            line@ == b@.subrange(pos as int, j as int),
        decreases end - j,
    {
        line.push(b[j]);
        j += 1;
    }
    (line, end)
}

/// `t` ends with a carriage return and a line feed.
pub open spec fn ends_with_crlf(t: Seq<char>) -> bool {
    t.len() >= 2 && t[t.len() - 2] == '\r' && t[t.len() - 1] == '\n'
}

/// `t` without its final carriage return and line feed.
pub open spec fn strip_crlf(t: Seq<char>) -> Seq<char> {
    t.subrange(0, t.len() - 2)
}

// ---------------------------------------------------------------------------
// UTF-8

/// Relies on `String::from_utf8`: it succeeds exactly on valid UTF-8, and
/// then holds the characters that the bytes encode.
#[verifier::external_body]
pub fn string_from_utf8(bytes: Vec<u8>) -> (r: Result<String, std::string::FromUtf8Error>)
    ensures
        r is Ok <==> vstd::utf8::valid_utf8(bytes@),
        r matches Ok(s) ==> s@ == vstd::utf8::decode_utf8(bytes@),
{
    String::from_utf8(bytes)
}

/// Relies on the `Display` of `FromUtf8Error` (through `to_string`) for its message.
#[verifier::external_body]
pub fn utf8_error_text(e: &std::string::FromUtf8Error) -> (r: String) {
    e.to_string()
}

/// The error of `String::from_utf8`, carried through unopened.
#[verifier::external_type_specification]
#[verifier::external_body]
pub struct ExFromUtf8Error(std::string::FromUtf8Error);

} // verus!
