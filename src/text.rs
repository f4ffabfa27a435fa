//! Text helpers: the std string operations the library relies on, each with
//! the statement that its documentation gives, and hex encoding of bytes.
use vstd::prelude::*;

verus! {

/// The text that `String::from_utf8_lossy` makes of a byte sequence.
pub uninterp spec fn lossy_text(bytes: Seq<u8>) -> Seq<char>;

/// `needle` occurs in `hay` as a contiguous run of characters.
pub open spec fn has_infix(hay: Seq<char>, needle: Seq<char>) -> bool {
    exists|i: int|
        0 <= i && i + needle.len() <= hay.len() && #[trigger] hay.subrange(i, i + needle.len())
            == needle
}

/// ASCII upper-case letters mapped to lower case; every other character kept.
pub open spec fn ascii_lower_char(c: char) -> char {
    if 'A' <= c && c <= 'Z' {
        ((c as u32) + 32) as char
    } else {
        c
    }
}

pub open spec fn ascii_lower(s: Seq<char>) -> Seq<char> {
    s.map_values(|c: char| ascii_lower_char(c))
}

/// The two texts match when ASCII letters are compared without case.
pub open spec fn ascii_eq_ignore_case(a: Seq<char>, b: Seq<char>) -> bool {
    ascii_lower(a) == ascii_lower(b)
}

/// `s` with every occurrence of `c` taken out.
pub open spec fn without_char(s: Seq<char>, c: char) -> Seq<char> {
    s.filter(|x: char| x != c)
}

/// Relies on `String::from_utf8_lossy`: the text depends on the bytes alone,
/// and it is empty exactly when the bytes are (every byte, valid or not,
/// yields at least one character).
#[verifier::external_body]
pub(crate) fn utf8_lossy(bytes: &[u8]) -> (r: String)
    ensures
        r@ == lossy_text(bytes@),
        r@.len() == 0 <==> bytes@.len() == 0,
{
    String::from_utf8_lossy(bytes).into_owned()
}

/// Relies on `str::contains` with a `&str` pattern: true when `needle`
/// occurs in `hay`.
#[verifier::external_body]
pub(crate) fn contains_text(hay: &str, needle: &str) -> (r: bool)
    ensures
        r == has_infix(hay@, needle@),
{
    hay.contains(needle)
}

/// Relies on `str::to_ascii_lowercase`: ASCII letters lowered, all else kept.
#[verifier::external_body]
pub(crate) fn ascii_lowercase(s: &str) -> (r: String)
    ensures
        r@ == ascii_lower(s@),
{
    s.to_ascii_lowercase()
}

/// Relies on `str::eq_ignore_ascii_case`, documented as the same as comparing
/// the two `to_ascii_lowercase` results.
#[verifier::external_body]
pub(crate) fn eq_ignore_ascii_case(a: &str, b: &str) -> (r: bool)
    ensures
        r == ascii_eq_ignore_case(a@, b@),
{
    a.eq_ignore_ascii_case(b)
}

/// Relies on `str::replace` with a `char` pattern and an empty replacement:
/// every occurrence of the character is removed.
#[verifier::external_body]
pub(crate) fn remove_char(s: &str, c: char) -> (r: String)
    ensures
        r@ == without_char(s@, c),
{
    s.replace(c, "")
}

/// Relies on `String::push`: the character is appended.
#[verifier::external_body]
pub(crate) fn push_char(s: &mut String, c: char)
    ensures
        final(s)@ == old(s)@.push(c),
{
    s.push(c)
}

/// The lowercase hexadecimal digit of a value below sixteen.
pub open spec fn hex_digit(n: u8) -> char {
    if n < 10 {
        ((n as u32) + 48) as char
    } else {
        ((n as u32) + 87) as char
    }
}

/// Two lowercase hex digits per byte, high nibble first, no separators.
pub open spec fn hex_text(bytes: Seq<u8>) -> Seq<char>
    decreases bytes.len(),
{
    if bytes.len() == 0 {
        Seq::empty()
    } else {
        let b = bytes.last();
        hex_text(bytes.drop_last()) + seq![hex_digit(b / 16), hex_digit(b % 16)]
    }
}

fn hex_digit_char(n: u8) -> (c: char)
    requires
        n < 16,
    ensures
        c == hex_digit(n),
{
    if n < 10 {
        (n + 48) as char
    } else {
        (n + 87) as char
    }
}

/// Encodes bytes as lowercase hexadecimal text.
pub fn hex_encode(bytes: &[u8]) -> (r: String)
    ensures
        r@ == hex_text(bytes@),
{
    let mut out = String::new();
    let mut i: usize = 0;
    while i < bytes.len()
        invariant
            0 <= i <= bytes@.len(),
            out@ == hex_text(bytes@.subrange(0, i as int)),
        decreases bytes@.len() - i,
    {
        let b = bytes[i];
        push_char(&mut out, hex_digit_char(b / 16));
        push_char(&mut out, hex_digit_char(b % 16));
        proof {
            let prefix = bytes@.subrange(0, i + 1);
            assert(prefix.drop_last() =~= bytes@.subrange(0, i as int));
            assert(prefix.last() == b);
        }
        i = i + 1;
    }
    assert(bytes@.subrange(0, bytes@.len() as int) =~= bytes@);
    out
}

/// A path that every platform splits on `/` alone: no backslash, no drive
/// prefix, and no leading `//` (a network-share prefix on Windows).
pub open spec fn portable_path(s: Seq<char>) -> bool {
    &&& !s.contains('\\')
    &&& !s.contains(':')
    &&& !(s.len() >= 2 && s[0] == '/' && s[1] == '/')
}

/// The characters after the last `/` of `s`.
pub open spec fn tail_segment(s: Seq<char>) -> Seq<char>
    decreases s.len(),
{
    if s.len() == 0 || s.last() == '/' {
        Seq::empty()
    } else {
        tail_segment(s.drop_last()).push(s.last())
    }
}

/// The final component of a `/`-separated path: empty segments and `.`
/// segments are passed over; none when nothing else is left.
pub open spec fn final_component(s: Seq<char>) -> Option<Seq<char>>
    decreases s.len(),
{
    if s.len() == 0 {
        None
    } else if s.last() == '/' {
        final_component(s.drop_last())
    } else if tail_segment(s) == seq!['.'] {
        final_component(s.drop_last())
    } else {
        Some(tail_segment(s))
    }
}

/// The extension of a path: that of its final component, none when that
/// component is `..` or missing.
pub open spec fn path_extension_of(s: Seq<char>) -> Option<Seq<char>> {
    match final_component(s) {
        Some(c) => if c == seq!['.', '.'] {
            None
        } else {
            name_extension(c)
        },
        None => None,
    }
}

/// The extension of a plain file name: the text after its last dot, unless
/// that dot is the name's first character (or there is no dot).
pub open spec fn name_extension(s: Seq<char>) -> Option<Seq<char>> {
    if exists|i: int| 0 < i < s.len() && s[i] == '.' {
        let i = choose|i: int|
            0 < i < s.len() && s[i] == '.' && forall|j: int| i < j < s.len() ==> s[j] != '.';
        Some(s.subrange(i + 1, s.len() as int))
    } else {
        None
    }
}

pub open spec fn opt_text(o: Option<&str>) -> Option<Seq<char>> {
    match o {
        Some(s) => Some(s@),
        None => None,
    }
}

/// Relies on `Path::extension` (then `OsStr::to_str`): the documented rule
/// is the text after the final dot of the file name (the final component,
/// none when it is `..` or missing), and none when it has no dot or only a
/// leading one. Stated for paths that every platform splits alike.
#[verifier::external_body]
pub(crate) fn path_extension(name: &str) -> (r: Option<&str>)
    ensures
        portable_path(name@) ==> opt_text(r) == path_extension_of(name@),
{
    std::path::Path::new(name).extension().and_then(|e| e.to_str())
}

} // verus!
