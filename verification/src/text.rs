//! Character classes and small string builders shared by the naming and
//! rendering code.
use vstd::prelude::*;

verus! {

pub open spec fn is_upper(c: char) -> bool {
    65 <= (c as u32) && (c as u32) <= 90
}

pub open spec fn is_lower(c: char) -> bool {
    97 <= (c as u32) && (c as u32) <= 122
}

pub open spec fn is_digit(c: char) -> bool {
    48 <= (c as u32) && (c as u32) <= 57
}

/// The lower-case form of an ASCII upper-case letter; other characters are kept.
pub open spec fn lower(c: char) -> char {
    if is_upper(c) {
        ((c as u32) + 32) as char
    } else {
        c
    }
}

/// Whether `c` is an ASCII upper-case letter.
pub fn is_ascii_upper(c: char) -> (res: bool)
    ensures
        res == is_upper(c),
{
    let v = c as u32;
    65 <= v && v <= 90
}

/// Whether `c` is an ASCII lower-case letter.
pub fn is_ascii_lower(c: char) -> (res: bool)
    ensures
        res == is_lower(c),
{
    let v = c as u32;
    97 <= v && v <= 122
}

/// Whether `c` is an ASCII digit.
pub fn is_ascii_digit(c: char) -> (res: bool)
    ensures
        res == is_digit(c),
{
    let v = c as u32;
    48 <= v && v <= 57
}

/// The lower-case form of an ASCII letter.
pub fn to_lower(c: char) -> (res: char)
    ensures
        res == lower(c),
{
    if is_ascii_upper(c) {
        let v = (c as u32) + 32;
        (v as u8) as char
    } else {
        c
    }
}

/// Appends one character to a string (`String::push`).
#[verifier::external_body]
pub(crate) fn push_char(s: &mut String, c: char)
    ensures
        final(s)@ == old(s)@.push(c),
{
    s.push(c);
}

} // verus!
