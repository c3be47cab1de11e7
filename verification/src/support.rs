//! Byte strings that end at a NUL byte or at the end of their buffer.

use vstd::prelude::*;
use vstd::string::StringSliceAdditionalSpecFns;
use crate::signal::{SIGRTMAX, SIGRTMIN};

verus! {

/// The byte of `s` at `i`; past the end of `s` the text reads as its
/// terminator, the byte 0.
pub open spec fn byte_at(s: Seq<u8>, i: int) -> u8 {
    if 0 <= i < s.len() {
        s[i]
    } else {
        0
    }
}

/// The first position at or after `i` that holds a NUL byte, or the length
/// of `s` where there is none.
pub open spec fn string_end(s: Seq<u8>, i: int) -> int
    decreases s.len() - i,
{
    if 0 <= i < s.len() && s[i] != 0 {
        string_end(s, i + 1)
    } else {
        i
    }
}

/// The length of the string at the head of `s`.
pub open spec fn string_len(s: Seq<u8>) -> int {
    string_end(s, 0)
}

/// The string at the head of `s`, without its terminator.
pub open spec fn string_of(s: Seq<u8>) -> Seq<u8> {
    s.subrange(0, string_len(s))
}

/// The first position at or after `i` that holds a zero unit, or the length
/// of `s` where there is none.
pub open spec fn wstring_end(s: Seq<i32>, i: int) -> int
    decreases s.len() - i,
{
    if 0 <= i < s.len() && s[i] != 0 {
        wstring_end(s, i + 1)
    } else {
        i
    }
}

/// The string ends inside its buffer, and no byte before the end is NUL.
pub proof fn lemma_string_end(s: Seq<u8>, i: int)
    requires
        0 <= i <= s.len(),
    ensures
        i <= string_end(s, i) <= s.len(),
        byte_at(s, string_end(s, i)) == 0,
        forall|k: int| i <= k < string_end(s, i) ==> s[k] != 0,
    decreases s.len() - i,
{
    if i < s.len() && s[i] != 0 {
        lemma_string_end(s, i + 1);
    }
}

/// The byte that a C `int` argument stands for: its value modulo 256.
pub open spec fn byte_of(c: i32) -> u8 {
    (c as int % 256) as u8
}

/// The byte that the C `int` argument `c` stands for.
pub fn to_uchar(c: i32) -> (r: u8)
    ensures
        r == byte_of(c),
{
    let low: i32 = c % 256;
    if low < 0 {
        (low + 256) as u8
    } else {
        low as u8
    }
}

/// The length of the string at the head of `string`.
pub fn string_length(string: &[u8]) -> (len: usize)
    ensures
        len == string_len(string@),
{
    let mut len: usize = 0;
    while len < string.len() && string[len] != 0
        invariant
            len <= string.len(),
            string_end(string@, 0) == string_end(string@, len as int),
        decreases string.len() - len,
    {
        len += 1;
    }
    len
}

/// The length of the wide string at the head of `string`.
pub fn wstring_length(string: &[i32]) -> (len: usize)
    ensures
        len == wstring_end(string@, 0),
{
    let mut len: usize = 0;
    while len < string.len() && string[len] != 0
        invariant
            len <= string.len(),
            wstring_end(string@, 0) == wstring_end(string@, len as int),
        decreases string.len() - len,
    {
        len += 1;
    }
    len
}

/// `buf` with the bytes from `at` on replaced by `bytes`, as far as they
/// reach.
pub open spec fn splice(buf: Seq<u8>, at: int, bytes: Seq<u8>) -> Seq<u8> {
    buf.subrange(0, at) + bytes + buf.subrange(at + bytes.len(), buf.len() as int)
}

/// The decimal digits of `n`.
pub open spec fn decimal(n: nat) -> Seq<u8>
    decreases n,
{
    if n < 10 {
        seq![(0x30 + n) as u8]
    } else {
        decimal(n / 10).push((0x30 + n % 10) as u8)
    }
}

/// The decimal numeral of `n`, with `-` before it where `n` is negative.
pub open spec fn signed_decimal(n: int) -> Seq<u8> {
    if n < 0 {
        seq![0x2du8] + decimal((-n) as nat)
    } else {
        decimal(n as nat)
    }
}

/// The message for the signal `num` where it has no name: a real-time
/// signal is counted from `SIGRTMIN`, any other is unknown.
pub open spec fn signal_text(num: i32) -> Seq<u8> {
    if SIGRTMIN <= num <= SIGRTMAX {
        "Real-time signal ".spec_bytes() + signed_decimal(num - SIGRTMIN)
    } else {
        "Unknown signal ".spec_bytes() + signed_decimal(num as int)
    }
}

/// The message for the error `num` where it has no name.
pub open spec fn error_text(num: i32) -> Seq<u8> {
    "Unknown error ".spec_bytes() + signed_decimal(num as int)
}

fn push_decimal(out: &mut Vec<u8>, n: u32)
    ensures
        final(out)@ == old(out)@ + decimal(n as nat),
    decreases n,
{
    if n >= 10 {
        push_decimal(out, n / 10);
    }
    out.push(0x30 + (n % 10) as u8);
}

fn push_signed_decimal(out: &mut Vec<u8>, n: i32)
    ensures
        final(out)@ == old(out)@ + signed_decimal(n as int),
{
    if n < 0 {
        out.push(0x2d);
        push_decimal(out, (-(n as i64)) as u32);
    } else {
        push_decimal(out, n as u32);
    }
}

fn push_bytes(out: &mut Vec<u8>, bytes: &[u8])
    ensures
        final(out)@ == old(out)@ + bytes@,
{
    let mut i: usize = 0;
    while i < bytes.len()
        invariant
            i <= bytes.len(),
            out@ == old(out)@ + bytes@.subrange(0, i as int),
        decreases bytes.len() - i,
    {
        out.push(bytes[i]);
        i += 1;
    }
}

/// Writes `text` and a terminator to the head of `buf`.
pub fn put_string(buf: &mut Vec<u8>, text: &[u8])
    requires
        text.len() < old(buf).len(),
    ensures
        final(buf)@ == splice(old(buf)@, 0, text@.push(0)),
{
    let mut i: usize = 0;
    while i < text.len()
        invariant
            i <= text.len() < buf.len(),
            buf.len() == old(buf).len(),
            buf@ == splice(old(buf)@, 0, text@.subrange(0, i as int)),
        decreases text.len() - i,
    {
        buf[i] = text[i];
        i += 1;
    }
    buf[i] = 0;
}

/// Writes the message for a signal without a name, with its terminator,
/// to the first `len` bytes of `buf`.
pub fn build_signal_string(num: i32, buf: &mut Vec<u8>, len: usize)
    requires
        len <= old(buf).len(),
        signal_text(num).len() < len,
    ensures
        final(buf)@ == splice(old(buf)@, 0, signal_text(num).push(0)),
{
    let mut text: Vec<u8> = Vec::new();
    if SIGRTMIN <= num && num <= SIGRTMAX {
        push_bytes(&mut text, "Real-time signal ".as_bytes());
        push_signed_decimal(&mut text, num - SIGRTMIN);
    } else {
        push_bytes(&mut text, "Unknown signal ".as_bytes());
        push_signed_decimal(&mut text, num);
    }
    put_string(buf, text.as_slice());
}

/// Writes the message for an error without a name, with its terminator,
/// to the first `len` bytes of `buf`.
pub fn build_error_string(num: i32, buf: &mut Vec<u8>, len: usize)
    requires
        len <= old(buf).len(),
        error_text(num).len() < len,
    ensures
        final(buf)@ == splice(old(buf)@, 0, error_text(num).push(0)),
{
    let mut text: Vec<u8> = Vec::new();
    push_bytes(&mut text, "Unknown error ".as_bytes());
    push_signed_decimal(&mut text, num);
    put_string(buf, text.as_slice());
}

} // verus!
