//! Character classification in the "C" locale.

use vstd::prelude::*;

verus! {

/// `c` is one of `'0'..='9'`.
pub open spec fn is_digit(c: int) -> bool {
    0x30 <= c <= 0x39
}

/// `c` is one of `'A'..='Z'`.
pub open spec fn is_upper(c: int) -> bool {
    0x41 <= c <= 0x5a
}

/// `c` is one of `'a'..='z'`.
pub open spec fn is_lower(c: int) -> bool {
    0x61 <= c <= 0x7a
}

/// `c` is a letter of either case.
pub open spec fn is_alpha(c: int) -> bool {
    is_upper(c) || is_lower(c)
}

/// `c` is a letter or a decimal digit.
pub open spec fn is_alnum(c: int) -> bool {
    is_digit(c) || is_alpha(c)
}

/// `c` is a space, or one of `\t \n \v \f \r`.
pub open spec fn is_space(c: int) -> bool {
    c == 0x20 || 0x09 <= c <= 0x0d
}

/// Not 0 exactly when `c` is a decimal digit.
pub fn ouma_isdigit(c: i32) -> (r: i32)
    ensures
        r != 0 <==> is_digit(c as int),
{
    if 0x30 <= c && c <= 0x39 {
        1
    } else {
        0
    }
}

/// Not 0 exactly when `c` is an upper-case letter.
pub fn ouma_isupper(c: i32) -> (r: i32)
    ensures
        r != 0 <==> is_upper(c as int),
{
    if 0x41 <= c && c <= 0x5a {
        1
    } else {
        0
    }
}

/// Not 0 exactly when `c` is a lower-case letter.
pub fn ouma_islower(c: i32) -> (r: i32)
    ensures
        r != 0 <==> is_lower(c as int),
{
    if 0x61 <= c && c <= 0x7a {
        1
    } else {
        0
    }
}

/// Not 0 exactly when `c` is a letter.
pub fn ouma_isalpha(c: i32) -> (r: i32)
    ensures
        r != 0 <==> is_alpha(c as int),
{
    if ouma_isupper(c) != 0 || ouma_islower(c) != 0 {
        1
    } else {
        0
    }
}

/// Not 0 exactly when `c` is a letter or a decimal digit.
pub fn ouma_isalnum(c: i32) -> (r: i32)
    ensures
        r != 0 <==> is_alnum(c as int),
{
    if ouma_isdigit(c) != 0 || ouma_isalpha(c) != 0 {
        1
    } else {
        0
    }
}

/// Not 0 exactly when `c` is whitespace.
pub fn ouma_isspace(c: i32) -> (r: i32)
    ensures
        r != 0 <==> is_space(c as int),
{
    if c == 0x20 || (0x09 <= c && c <= 0x0d) {
        1
    } else {
        0
    }
}

} // verus!
