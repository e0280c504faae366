//! Character classes used by the markup grammar.

use vstd::prelude::*;

verus! {

/// Whether the pattern matches somewhere in the text, as the `regex` crate
/// decides it; `false` for a pattern that the crate does not take.
pub uninterp spec fn regex_matches(pattern: Seq<char>, text: Seq<char>) -> bool;

/// Calls `regex::Regex::new` on the pattern and `Regex::is_match` on the text
/// made of the one character `c`. The result is whatever the crate answers; a
/// pattern that fails to compile counts as no match.
#[verifier::external_body]
fn matches_char(pattern: &str, c: char) -> (r: bool)
    ensures
        r == regex_matches(pattern@, seq![c]),
{
    regex::Regex::new(pattern).map(|re| re.is_match(c.encode_utf8(&mut [0u8; 4]))).unwrap_or(false)
}

/// Whether the class `\w` of patterns holds `c`: the word characters of
/// Unicode.
pub open spec fn unicode_word(c: char) -> bool {
    regex_matches("\\w"@, seq![c])
}

/// Whether the class `\d` of patterns holds `c`: the decimal digits of
/// Unicode.
pub open spec fn unicode_digit(c: char) -> bool {
    regex_matches("\\d"@, seq![c])
}

/// Whether `c` is a character of ASCII.
pub open spec fn is_ascii_char(c: char) -> bool {
    (c as u32) < 128
}

/// Whether `c` is one of `0` to `9`.
pub open spec fn is_ascii_digit(c: char) -> bool {
    '0' <= c <= '9'
}

/// Whether `c` is one of `a` to `z` or of `A` to `Z`.
pub open spec fn is_ascii_letter(c: char) -> bool {
    ('a' <= c <= 'z') || ('A' <= c <= 'Z')
}

/// A character that may stand in the name of a custom emoji: a letter, a digit
/// or an underscore in ASCII, and beyond ASCII whatever the class `\w` holds.
pub open spec fn is_word(c: char) -> bool {
    if is_ascii_char(c) {
        is_ascii_letter(c) || is_ascii_digit(c) || c == '_'
    } else {
        unicode_word(c)
    }
}

/// A character that may stand in a numeric identifier: `0` to `9` in ASCII,
/// and beyond ASCII whatever the class `\d` holds.
pub open spec fn is_digit(c: char) -> bool {
    if is_ascii_char(c) {
        is_ascii_digit(c)
    } else {
        unicode_digit(c)
    }
}

/// A character that may stand inside the address of a link.
pub open spec fn is_link_inner(c: char) -> bool {
    is_link_last(c) || c == '-' || c == '?' || c == '!' || c == ':' || c == ',' || c == '.'
        || c == ';'
}

/// A character that may end the address of a link.
pub open spec fn is_link_last(c: char) -> bool {
    is_ascii_letter(c) || is_ascii_digit(c) || c == '+' || c == '&' || c == '@' || c == '#'
        || c == '/' || c == '%' || c == '=' || c == '~' || c == '_' || c == '|'
}

/// Whether `c` is a character of ASCII.
pub fn ascii_char(c: char) -> (r: bool)
    ensures
        r == is_ascii_char(c),
{
    (c as u32) < 128
}

/// Whether `c` is one of `0` to `9`.
pub fn ascii_digit(c: char) -> (r: bool)
    ensures
        r == is_ascii_digit(c),
{
    '0' <= c && c <= '9'
}

/// Whether `c` is one of `a` to `z` or of `A` to `Z`.
pub fn ascii_letter(c: char) -> (r: bool)
    ensures
        r == is_ascii_letter(c),
{
    ('a' <= c && c <= 'z') || ('A' <= c && c <= 'Z')
}

/// Whether `c` may stand in the name of a custom emoji.
pub fn word_char(c: char) -> (r: bool)
    ensures
        r == is_word(c),
{
    if ascii_char(c) {
        ascii_letter(c) || ascii_digit(c) || c == '_'
    } else {
        matches_char("\\w", c)
    }
}

/// Whether `c` may stand in a numeric identifier.
pub fn digit_char(c: char) -> (r: bool)
    ensures
        r == is_digit(c),
{
    if ascii_char(c) {
        ascii_digit(c)
    } else {
        matches_char("\\d", c)
    }
}

/// Whether `c` may end the address of a link.
pub fn link_last_char(c: char) -> (r: bool)
    ensures
        r == is_link_last(c),
{
    ascii_letter(c) || ascii_digit(c) || c == '+' || c == '&' || c == '@' || c == '#' || c == '/'
        || c == '%' || c == '=' || c == '~' || c == '_' || c == '|'
}

/// Whether `c` may stand inside the address of a link.
pub fn link_inner_char(c: char) -> (r: bool)
    ensures
        r == is_link_inner(c),
{
    link_last_char(c) || c == '-' || c == '?' || c == '!' || c == ':' || c == ',' || c == '.'
        || c == ';'
}

/// White space in the sense of `char::is_whitespace`.
pub open spec fn is_whitespace(c: char) -> bool {
    let u = c as u32;
    (0x09 <= u <= 0x0d) || u == 0x20 || u == 0x85 || u == 0xa0 || u == 0x1680 || (0x2000 <= u
        <= 0x200a) || u == 0x2028 || u == 0x2029 || u == 0x202f || u == 0x205f || u == 0x3000
}

/// Whether `c` is white space.
pub fn whitespace_char(c: char) -> (r: bool)
    ensures
        r == is_whitespace(c),
{
    let u: u32 = c as u32;
    (0x09 <= u && u <= 0x0d) || u == 0x20 || u == 0x85 || u == 0xa0 || u == 0x1680 || (0x2000 <= u
        && u <= 0x200a) || u == 0x2028 || u == 0x2029 || u == 0x202f || u == 0x205f || u
        == 0x3000
}

} // verus!
