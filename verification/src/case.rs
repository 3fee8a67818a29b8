//! Letter case beyond ASCII, as the standard library knows it.
use crate::text::lower_text;
use vstd::prelude::*;
use vstd::string::*;
use vstd::utf8::is_ascii_chars;

verus! {

/// Whether a character has the Uppercase property, by `char::is_uppercase`.
pub uninterp spec fn is_upper(c: char) -> bool;

/// The uppercase form of a character, by `char::to_uppercase`.
pub uninterp spec fn upper_form(c: char) -> Seq<char>;

/// The lowercase form of a text, by `str::to_lowercase`.
pub uninterp spec fn lower_form(s: Seq<char>) -> Seq<char>;

/// `char::is_uppercase`. Of ASCII characters the capital letters are uppercase.
#[verifier::external_body]
pub(crate) fn is_uppercase(c: char) -> (r: bool)
    ensures
        r == is_upper(c),
        (c as u32) < 128 ==> r == ('A' <= c && c <= 'Z'),
{
    c.is_uppercase()
}

/// The capital letter of an ASCII small letter; other characters stay.
pub open spec fn capital(c: char) -> char {
    if 'a' <= c && c <= 'z' {
        (c as u32 - 32) as u8 as char
    } else {
        c
    }
}

/// `char::to_uppercase`, its characters as a text. An ASCII small letter
/// becomes its capital, another ASCII character stays.
#[verifier::external_body]
pub(crate) fn to_uppercase(c: char) -> (r: String)
    ensures
        r@ == upper_form(c),
        (c as u32) < 128 ==> r@ == seq![capital(c)],
{
    c.to_uppercase().to_string()
}

/// `str::to_lowercase`. On ASCII text it makes capital letters small and
/// leaves the rest.
#[verifier::external_body]
pub(crate) fn to_lowercase(s: &str) -> (r: String)
    ensures
        r@ == lower_form(s@),
        is_ascii_chars(s@) ==> r@ == lower_text(s@),
{
    s.to_lowercase()
}

} // verus!
