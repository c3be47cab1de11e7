//! Textual integer parsing with base inference and saturation.

use vstd::prelude::*;
use crate::ctype::{is_alnum, is_digit, is_lower, is_space, is_upper, ouma_isalnum, ouma_isalpha, ouma_isdigit, ouma_isspace};
use crate::errno::{EINVAL, ERANGE};
use crate::numeric::ParseTarget;
use crate::support::byte_at;

verus! {

/// The value of `c` as a digit of a base up to 36: `0..=9` for the decimal
/// digits, `10..=35` for the letters of either case, 0 for any other byte.
pub open spec fn digit_value(c: u8) -> int {
    if is_digit(c as int) {
        c - 0x30
    } else if is_upper(c as int) {
        c - 0x41 + 10
    } else if is_lower(c as int) {
        c - 0x61 + 10
    } else {
        0
    }
}

/// The value of `input` as a digit of a base up to 36, or 0 where it is
/// none.
pub fn b36_char_to_int(input: u8) -> (r: i32)
    ensures
        r == digit_value(input),
{
    if ouma_isdigit(input as i32) != 0 {
        return (input - 0x30) as i32;
    }
    if ouma_isalpha(input as i32) != 0 {
        let folded: u8 = input | 32;
        assert(folded == if input <= 0x5a { input + 32 } else { input as int }) by (bit_vector)
            requires
                folded == input | 32,
                (0x41 <= input <= 0x5a) || (0x61 <= input <= 0x7a),
        ;
        return (folded - 0x61 + 10) as i32;
    }
    0
}

/// `c` is a digit of `base`.
pub open spec fn is_digit_of(c: u8, base: int) -> bool {
    is_alnum(c as int) && digit_value(c) < base
}

/// The first position at or after `i` that holds no whitespace.
pub open spec fn skip_spaces(s: Seq<u8>, i: int) -> int
    decreases s.len() - i,
{
    if 0 <= i < s.len() && is_space(s[i] as int) {
        skip_spaces(s, i + 1)
    } else {
        i
    }
}

/// The first position at or after `i` that holds no digit of `base`.
pub open spec fn digits_end(s: Seq<u8>, i: int, base: int) -> int
    decreases s.len() - i,
{
    if 0 <= i < s.len() && is_digit_of(s[i], base) {
        digits_end(s, i + 1, base)
    } else {
        i
    }
}

/// The number that the digits of `s` in `start..end` write in `base`.
pub open spec fn digits_value(s: Seq<u8>, start: int, end: int, base: int) -> int
    decreases end - start,
{
    if end <= start {
        0
    } else {
        digits_value(s, start, end - 1, base) * base + digit_value(byte_at(s, end - 1))
    }
}

/// At `i` stands `0x` or `0X`, followed by a hexadecimal digit.
pub open spec fn hex_start(s: Seq<u8>, i: int) -> bool {
    &&& byte_at(s, i) == 0x30
    &&& (byte_at(s, i + 1) == 0x78 || byte_at(s, i + 1) == 0x58)
    &&& is_digit_of(byte_at(s, i + 2), 16)
}

/// At `i` stands `0b` or `0B`, followed by a binary digit.
pub open spec fn bin_start(s: Seq<u8>, i: int) -> bool {
    &&& byte_at(s, i) == 0x30
    &&& (byte_at(s, i + 1) == 0x62 || byte_at(s, i + 1) == 0x42)
    &&& is_digit_of(byte_at(s, i + 2), 2)
}

/// The base that the text at `i` announces when the caller names none.
pub open spec fn inferred_base(s: Seq<u8>, i: int) -> int {
    if hex_start(s, i) {
        16
    } else if bin_start(s, i) {
        2
    } else if byte_at(s, i) == 0x30 {
        8
    } else {
        10
    }
}

/// The length of the base prefix at `i` that a parse in `base` passes over.
pub open spec fn prefix_len(s: Seq<u8>, i: int, base: int) -> int {
    if (base == 0 || base == 16) && hex_start(s, i) {
        2
    } else if base == 0 && bin_start(s, i) {
        2
    } else {
        0
    }
}

/// The bases a caller may ask for: 0, for inference, and 2 to 36.
pub open spec fn valid_base(base: int) -> bool {
    base == 0 || 2 <= base <= 36
}

/// Where the numeral of a text lies, and how it is to be read.
pub struct Numeral {
    /// A `-` stands before the digits.
    pub negative: bool,
    /// The base the digits are read in.
    pub base: int,
    /// The position of the first digit, after whitespace, sign and prefix.
    pub first: int,
    /// The position after the last digit.
    pub last: int,
}

/// The numeral at the head of `s` for a parse in `base`.
pub open spec fn numeral(s: Seq<u8>, base: int) -> Numeral {
    let sign = skip_spaces(s, 0);
    let signed = byte_at(s, sign) == 0x2b || byte_at(s, sign) == 0x2d;
    let body = if signed {
        sign + 1
    } else {
        sign
    };
    let radix = if base == 0 {
        inferred_base(s, body)
    } else {
        base
    };
    let first = body + prefix_len(s, body, base);
    Numeral {
        negative: byte_at(s, sign) == 0x2d,
        base: radix,
        first,
        last: digits_end(s, first, radix),
    }
}

/// The number that the digits of the numeral write, without any bound.
pub open spec fn magnitude(s: Seq<u8>, base: int) -> int {
    let n = numeral(s, base);
    digits_value(s, n.first, n.last, n.base)
}

/// The greatest magnitude the target holds: `max`, or `max + 1` below zero
/// in a signed target. A `min` of 0 marks an unsigned target.
pub open spec fn magnitude_limit(negative: bool, min: u64, max: u64) -> int {
    if negative && min != 0 {
        max + 1
    } else {
        max as int
    }
}

/// The numeral does not fit the target. The accumulator is capped at the
/// limit, and any digit read once it stands at the limit counts as overflow;
/// a limit of 0 is reached before the first digit.
pub open spec fn out_of_range(s: Seq<u8>, base: int, min: u64, max: u64) -> bool {
    let n = numeral(s, base);
    let limit = magnitude_limit(n.negative, min, max);
    magnitude(s, base) > limit || (limit == 0 && n.last > n.first)
}

/// The error code of a parse: invalid argument for a base that is neither 0
/// nor in `2..=36`, range error for a numeral that does not fit, else 0.
pub open spec fn parsed_errno(s: Seq<u8>, base: int, min: u64, max: u64) -> int {
    if !valid_base(base) {
        EINVAL as int
    } else if out_of_range(s, base, min, max) {
        ERANGE as int
    } else {
        0
    }
}

/// The number of bytes from the start of `s` to the end of the numeral, or 0
/// when no digit was found, whatever was passed over before.
pub open spec fn parsed_len(s: Seq<u8>, base: int) -> int {
    let n = numeral(s, base);
    if valid_base(base) && n.last > n.first {
        n.last
    } else {
        0
    }
}

/// The value of a parse. Out of range it is the bound on the numeral's side:
/// `max`, or `-(max + 1)` below zero in a signed target. In range the sign is
/// applied; a negated value in an unsigned target wraps round `max + 1`.
pub open spec fn parsed_value(s: Seq<u8>, base: int, min: u64, max: u64) -> int {
    let n = numeral(s, base);
    let v = magnitude(s, base);
    if !valid_base(base) {
        0
    } else if out_of_range(s, base, min, max) {
        if n.negative && min != 0 {
            -(max as int) - 1
        } else {
            max as int
        }
    } else if !n.negative {
        v
    } else if min != 0 {
        -v
    } else if v == 0 {
        0
    } else {
        max + 1 - v
    }
}

/// Scanning stays inside the text.
pub proof fn lemma_scan_bounds(s: Seq<u8>, i: int, base: int)
    requires
        0 <= i <= s.len(),
    ensures
        i <= skip_spaces(s, i) <= s.len(),
        i <= digits_end(s, i, base) <= s.len(),
    decreases s.len() - i,
{
    if i < s.len() {
        lemma_scan_bounds(s, i + 1, base);
    }
}

/// Digits write a number that is not negative.
pub proof fn lemma_digits_value(s: Seq<u8>, start: int, end: int, base: int)
    requires
        base >= 0,
    ensures
        digits_value(s, start, end, base) >= 0,
    decreases end - start,
{
    if end > start {
        lemma_digits_value(s, start, end - 1, base);
        assert(digits_value(s, start, end - 1, base) * base >= 0) by (nonlinear_arith)
            requires
                digits_value(s, start, end - 1, base) >= 0,
                base >= 0,
        ;
    }
}

/// No conversion: where the text holds no digit after its whitespace, sign
/// and prefix, the value is 0, the consumed length is 0 and no error is
/// reported, whatever was passed over.
pub proof fn lemma_no_conversion(s: Seq<u8>, base: int, min: u64, max: u64)
    requires
        valid_base(base),
        numeral(s, base).last == numeral(s, base).first,
    ensures
        parsed_value(s, base, min, max) == 0,
        parsed_len(s, base) == 0,
        parsed_errno(s, base, min, max) == 0,
{
}

/// Saturation: the value of every parse lies in the target's range, a
/// numeral that does not fit yields the bound on its side, and the consumed
/// length lies inside the text.
pub proof fn lemma_parse_saturates(s: Seq<u8>, base: int, min: u64, max: u64)
    ensures
        min == 0 ==> 0 <= parsed_value(s, base, min, max) <= max,
        min != 0 ==> -(max as int) - 1 <= parsed_value(s, base, min, max) <= max,
        parsed_errno(s, base, min, max) == ERANGE ==> parsed_value(s, base, min, max) == (if min
            != 0 && numeral(s, base).negative {
            -(max as int) - 1
        } else {
            max as int
        }),
        0 <= parsed_len(s, base) <= s.len(),
{
    let n = numeral(s, base);
    lemma_scan_bounds(s, 0, base);
    if valid_base(base) {
        lemma_digits_value(s, n.first, n.last, n.base);
        lemma_scan_bounds(s, n.first, n.base);
    }
}

fn byte_or_nul(src: &[u8], pos: usize, ahead: usize) -> (r: u8)
    requires
        pos <= src.len(),
    ensures
        r == byte_at(src@, pos + ahead),
{
    if ahead < src.len() - pos {
        src[pos + ahead]
    } else {
        0
    }
}

fn digit_at(src: &[u8], pos: usize, base: i32) -> (r: bool)
    requires
        pos <= src.len(),
    ensures
        r == is_digit_of(byte_at(src@, pos as int), base as int),
        r ==> pos < src.len(),
{
    let c = byte_or_nul(src, pos, 0);
    ouma_isalnum(c as i32) != 0 && b36_char_to_int(c) < base
}

/// Whether `0x` or `0X` and a hexadecimal digit stand at `pos`.
pub fn is_hex_start(src: &[u8], pos: usize) -> (r: bool)
    requires
        pos <= src.len(),
    ensures
        r == hex_start(src@, pos as int),
{
    let mark = byte_or_nul(src, pos, 1);
    let next = byte_or_nul(src, pos, 2);
    byte_or_nul(src, pos, 0) == 0x30 && (mark == 0x78 || mark == 0x58) && b36_char_to_int(next)
        < 16 && ouma_isalnum(next as i32) != 0
}

/// Whether `0b` or `0B` and a binary digit stand at `pos`.
pub fn is_bin_start(src: &[u8], pos: usize) -> (r: bool)
    requires
        pos <= src.len(),
    ensures
        r == bin_start(src@, pos as int),
{
    let mark = byte_or_nul(src, pos, 1);
    let next = byte_or_nul(src, pos, 2);
    byte_or_nul(src, pos, 0) == 0x30 && (mark == 0x62 || mark == 0x42) && b36_char_to_int(next)
        < 2 && ouma_isalnum(next as i32) != 0
}

/// The base that the text at `pos` announces: 16 or 2 after a prefix, over
/// which `pos` is moved; 8 after a lone `0`; else 10.
pub fn infer_base(src: &[u8], pos: &mut usize) -> (r: i32)
    requires
        *old(pos) <= src.len(),
    ensures
        r == inferred_base(src@, *old(pos) as int),
        *final(pos) == *old(pos) + prefix_len(src@, *old(pos) as int, 0),
        *final(pos) <= src.len(),
{
    if is_hex_start(src, *pos) {
        *pos = *pos + 2;
        return 16;
    } else if is_bin_start(src, *pos) {
        *pos = *pos + 2;
        return 2;
    } else if byte_or_nul(src, *pos, 0) == 0x30 {
        return 8;
    }
    10
}

/// Parses the integer at the head of `src` into the range that `MIN` and
/// `MAX` give: `0..=MAX` when `MIN` is 0, `-(MAX + 1)..=MAX` otherwise. The
/// target type `T` must hold that range. Returns the value, the number of
/// bytes that make up the numeral (0 when no digit was found) and the error
/// code.
pub fn strtointeger<T: ParseTarget, const MIN: u64, const MAX: u64>(src: &[u8], base: i32) -> (r: (
    T,
    usize,
    i32,
))
    requires
        T::highest() >= MAX,
        T::lowest() <= (if MIN == 0 {
            0
        } else {
            -(MAX as int) - 1
        }),
    ensures
        r.0.as_int() == parsed_value(src@, base as int, MIN, MAX),
        r.1 == parsed_len(src@, base as int),
        r.2 == parsed_errno(src@, base as int, MIN, MAX),
{
    if base < 0 || base == 1 || base > 36 {
        return (T::zero(), 0, EINVAL);
    }
    let mut s: usize = 0;
    while s < src.len() && ouma_isspace(src[s] as i32) != 0
        invariant
            s <= src.len(),
            skip_spaces(src@, 0) == skip_spaces(src@, s as int),
        decreases src.len() - s,
    {
        s += 1;
    }
    let sign = byte_or_nul(src, s, 0);
    let negative = sign == 0x2d;
    if sign == 0x2b || sign == 0x2d {
        s += 1;
    }
    let mut b = base;
    if b == 0 {
        b = infer_base(src, &mut s);
    } else if b == 16 && is_hex_start(src, s) {
        s += 2;
    }
    let first = s;
    let limit: u128 = if negative && MIN != 0 {
        MAX as u128 + 1
    } else {
        MAX as u128
    };
    let mut result: u128 = 0;
    let mut overflow = false;
    while digit_at(src, s, b)
        invariant
            first <= s <= src.len(),
            2 <= b <= 36,
            limit <= u64::MAX + 1,
            digits_end(src@, first as int, b as int) == digits_end(src@, s as int, b as int),
            result == if digits_value(src@, first as int, s as int, b as int) <= limit {
                digits_value(src@, first as int, s as int, b as int)
            } else {
                limit as int
            },
            overflow == (digits_value(src@, first as int, s as int, b as int) > limit || (limit
                == 0 && s > first)),
        decreases src.len() - s,
    {
        let digit = b36_char_to_int(src[s]);
        let ghost before = digits_value(src@, first as int, s as int, b as int);
        s += 1;
        if result == limit {
            assert(limit >= 1 ==> before * b + digit > limit) by (nonlinear_arith)
                requires
                    before >= limit,
                    b >= 2,
                    digit >= 0,
            ;
            overflow = true;
        } else {
            assert(result * b + digit <= (u64::MAX + 1) * 36 + 36) by (nonlinear_arith)
                requires
                    0 <= result <= u64::MAX + 1,
                    2 <= b <= 36,
                    0 <= digit <= 36,
            ;
            let next = result * (b as u128) + (digit as u128);
            if next > limit {
                result = limit;
                overflow = true;
            } else {
                result = next;
            }
        }
    }
    let len = if s > first {
        s
    } else {
        0
    };
    let wide: i128 = if overflow {
        if negative && MIN != 0 {
            -(MAX as i128) - 1
        } else {
            MAX as i128
        }
    } else if !negative {
        result as i128
    } else if MIN != 0 {
        -(result as i128)
    } else if result == 0 {
        0
    } else {
        MAX as i128 + 1 - result as i128
    };
    let value = match T::from_wide(wide) {
        Some(v) => v,
        None => T::zero(),
    };
    (value, len, if overflow {
        ERANGE
    } else {
        0
    })
}

} // verus!
