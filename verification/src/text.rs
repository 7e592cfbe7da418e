//! Text as the standard library and the parser of numbers read it.
//!
//! The functions that call them are taken on trust: their contracts say what
//! the calls return, and nothing here proves it.

use vstd::prelude::*;

verus! {

/// The upper-case form of a string, as `str::to_uppercase` of the standard
/// library computes it (by the Unicode case mappings, which no locale
/// changes).
pub uninterp spec fn uppercase(s: Seq<char>) -> Seq<char>;

/// An ASCII digit or an ASCII letter of either case.
pub open spec fn is_ascii_alphanumeric(c: char) -> bool {
    ||| '0' <= c <= '9'
    ||| 'A' <= c <= 'Z'
    ||| 'a' <= c <= 'z'
}

/// An ASCII digit or an upper-case ASCII letter.
pub open spec fn is_ascii_upper_or_digit(c: char) -> bool {
    ||| '0' <= c <= '9'
    ||| 'A' <= c <= 'Z'
}

/// A lower-case ASCII letter becomes its upper-case letter; any other
/// character stays.
pub open spec fn ascii_upper_char(c: char) -> char {
    if 'a' <= c <= 'z' {
        ((c as int) - 32) as char
    } else {
        c
    }
}

/// The string with each lower-case ASCII letter replaced by its upper-case
/// letter.
pub open spec fn ascii_uppercase(s: Seq<char>) -> Seq<char> {
    Seq::new(s.len(), |i: int| ascii_upper_char(s[i]))
}

/// Every character is an ASCII letter or digit.
pub open spec fn all_ascii_alphanumeric(s: Seq<char>) -> bool {
    forall|i: int| 0 <= i < s.len() ==> is_ascii_alphanumeric(#[trigger] s[i])
}

/// Calls `str::to_uppercase` of the standard library.  Not proved: that the
/// result is `uppercase` of the argument, and that on a string of ASCII
/// letters and digits alone it is the string with its lower-case letters
/// replaced by their upper-case letters.
#[verifier::external_body]
pub(crate) fn to_uppercase(s: &str) -> (r: String)
    ensures
        r@ == uppercase(s@),
        all_ascii_alphanumeric(s@) ==> r@ == ascii_uppercase(s@),
{
    s.to_uppercase()
}

/// The views of a list of strings.
pub open spec fn strings_view(v: Seq<String>) -> Seq<Seq<char>> {
    Seq::new(v.len(), |i: int| v[i]@)
}

/// The fields of a line: its runs of characters between white space, in
/// order, as `str::split_whitespace` of the standard library yields them.
pub uninterp spec fn whitespace_fields(s: Seq<char>) -> Seq<Seq<char>>;

/// Calls `str::split_whitespace` of the standard library, and collects what
/// it yields.  Not proved: that the result is `whitespace_fields` of the
/// argument.
#[verifier::external_body]
pub(crate) fn split_whitespace(s: &str) -> (r: Vec<String>)
    ensures
        strings_view(r@) == whitespace_fields(s@),
{
    s.split_whitespace().map(|field| field.to_string()).collect()
}

/// Calls `str::starts_with` of the standard library.  Not proved: that the
/// result says whether the string begins with the characters of `prefix`.
#[verifier::external_body]
pub(crate) fn starts_with(s: &str, prefix: &str) -> (r: bool)
    ensures
        r == prefix@.is_prefix_of(s@),
{
    s.starts_with(prefix)
}

/// What `parse_int::parse` makes of a string when a number of `bits` bits
/// without sign is asked of it: the number that the string spells, or `None`
/// where it spells none, or none that fits.
pub uninterp spec fn parsed(s: Seq<char>, bits: int) -> Option<int>;

/// What `parse_int::parse::<u8>` makes of a string.
pub open spec fn parsed_u8(s: Seq<char>) -> Option<u8> {
    match parsed(s, 8) {
        Some(v) => Some(v as u8),
        None => None,
    }
}

/// What `parse_int::parse::<u16>` makes of a string.
pub open spec fn parsed_u16(s: Seq<char>) -> Option<u16> {
    match parsed(s, 16) {
        Some(v) => Some(v as u16),
        None => None,
    }
}

/// What `parse_int::parse::<u32>` makes of a string.
pub open spec fn parsed_u32(s: Seq<char>) -> Option<u32> {
    match parsed(s, 32) {
        Some(v) => Some(v as u32),
        None => None,
    }
}

/// Calls `parse_int::parse::<u8>`.  Not proved: that the result is what
/// `parsed` names for 8 bits.
#[verifier::external_body]
pub(crate) fn parse_u8(s: &str) -> (r: Option<u8>)
    ensures
        r == match parsed(s@, 8) {
            Some(v) => Some(v as u8),
            None => None,
        },
{
    parse_int::parse::<u8>(s).ok()
}

/// Calls `parse_int::parse::<u16>`.  Not proved: that the result is what
/// `parsed` names for 16 bits.
#[verifier::external_body]
pub(crate) fn parse_u16(s: &str) -> (r: Option<u16>)
    ensures
        r == match parsed(s@, 16) {
            Some(v) => Some(v as u16),
            None => None,
        },
{
    parse_int::parse::<u16>(s).ok()
}

/// Calls `parse_int::parse::<u32>`.  Not proved: that the result is what
/// `parsed` names for 32 bits.
#[verifier::external_body]
pub(crate) fn parse_u32(s: &str) -> (r: Option<u32>)
    ensures
        r == match parsed(s@, 32) {
            Some(v) => Some(v as u32),
            None => None,
        },
{
    parse_int::parse::<u32>(s).ok()
}

} // verus!
