//! The byte and string primitives, on buffers with explicit bounds.

use vstd::prelude::*;
use vstd::string::StringSliceAdditionalSpecFns;
use crate::byteset::{byteset_contains, byteset_insert, byteset_new, members, ByteSet};
use crate::errno::{EINVAL, ENOMEM, ERANGE};
use crate::signal::{signal_name, sys_siglist, SYS_NSIGNAME};
use crate::locale::{LocaleStruct, ThreadContext};
use crate::stdlib::ouma_malloc;
use crate::support::{build_error_string, build_signal_string, byte_at, byte_of, error_text, lemma_string_end, put_string, signal_text, splice, string_end, string_len, string_length, string_of, to_uchar};

verus! {

/// The first position in `from..to` at which `s` holds `b`, or `to` where
/// it holds none there.
pub open spec fn find_byte(s: Seq<u8>, b: u8, from: int, to: int) -> int
    decreases to - from,
{
    if from < to && !(0 <= from < s.len() && s[from] == b) {
        find_byte(s, b, from + 1, to)
    } else {
        from
    }
}

/// `find_byte` stays in its range, stops on the byte, and passes over none.
pub proof fn lemma_find_byte(s: Seq<u8>, b: u8, from: int, to: int)
    requires
        0 <= from <= to,
    ensures
        from <= find_byte(s, b, from, to) <= to,
        find_byte(s, b, from, to) < to ==> find_byte(s, b, from, to) < s.len() && s[find_byte(
            s,
            b,
            from,
            to,
        )] == b,
        forall|k: int| from <= k < find_byte(s, b, from, to) && k < s.len() ==> s[k] != b,
    decreases to - from,
{
    if from < to && !(0 <= from < s.len() && s[from] == b) {
        lemma_find_byte(s, b, from + 1, to);
    }
}

/// The lesser of two numbers.
pub open spec fn least(a: int, b: int) -> int {
    if a <= b {
        a
    } else {
        b
    }
}

/// `n` copies of `b`.
pub open spec fn fill(b: u8, n: int) -> Seq<u8> {
    Seq::new(n as nat, |i: int| b)
}

/// The number of bytes that `memccpy` copies: up to and with the first `b`
/// among the first `n` bytes of `src`, or `n` where there is none.
pub open spec fn memccpy_count(src: Seq<u8>, b: u8, n: int) -> int {
    let stop = find_byte(src, b, 0, least(n, src.len() as int));
    if stop < least(n, src.len() as int) {
        stop + 1
    } else {
        n
    }
}

/// Copies bytes from `src` to `dest` up to and with the first byte equal to
/// `c`, `n` bytes at most. Returns the position in `dest` after that byte,
/// or `None` where the first `n` bytes of `src` hold none.
pub fn ouma_memccpy(dest: &mut Vec<u8>, src: &[u8], c: i32, n: usize) -> (r: Option<usize>)
    requires
        memccpy_count(src@, byte_of(c), n as int) <= src.len(),
        memccpy_count(src@, byte_of(c), n as int) <= old(dest).len(),
    ensures
        final(dest)@ == splice(
            old(dest)@,
            0,
            src@.subrange(0, memccpy_count(src@, byte_of(c), n as int)),
        ),
        r == if find_byte(src@, byte_of(c), 0, n as int) < n {
            Some((find_byte(src@, byte_of(c), 0, n as int) + 1) as usize)
        } else {
            None
        },
{
    let b = to_uchar(c);
    let mut i: usize = 0;
    while i < n
        invariant
            i <= n,
            b == byte_of(c),
            dest.len() == old(dest).len(),
            memccpy_count(src@, b, n as int) <= src.len(),
            memccpy_count(src@, b, n as int) <= dest.len(),
            find_byte(src@, b, 0, n as int) == find_byte(src@, b, i as int, n as int),
            find_byte(src@, b, 0, least(n as int, src.len() as int)) == find_byte(
                src@,
                b,
                i as int,
                least(n as int, src.len() as int),
            ),
            i <= src.len(),
            dest@ == splice(old(dest)@, 0, src@.subrange(0, i as int)),
        decreases n - i,
    {
        proof {
            lemma_find_byte(src@, b, i as int, least(n as int, src.len() as int));
        }
        let byte = src[i];
        dest[i] = byte;
        i += 1;
        if byte == b {
            return Some(i);
        }
    }
    None
}

/// The first position among the first `n` bytes of `s` that holds the byte
/// `c`, or `None` where none does.
pub fn ouma_memchr(s: &[u8], c: i32, n: usize) -> (r: Option<usize>)
    requires
        n <= s.len() || find_byte(s@, byte_of(c), 0, s.len() as int) < s.len(),
    ensures
        r == if find_byte(s@, byte_of(c), 0, n as int) < n {
            Some(find_byte(s@, byte_of(c), 0, n as int) as usize)
        } else {
            None
        },
{
    let b = to_uchar(c);
    let mut i: usize = 0;
    while i < n
        invariant
            i <= n,
            i <= s.len(),
            b == byte_of(c),
            n <= s.len() || find_byte(s@, b, i as int, s.len() as int) < s.len(),
            find_byte(s@, b, 0, n as int) == find_byte(s@, b, i as int, n as int),
        decreases n - i,
    {
        if s[i] == b {
            return Some(i);
        }
        i += 1;
    }
    None
}

/// The first position below `n` at which `left` and `right` differ, or `n`
/// where they agree on their first `n` bytes.
pub open spec fn mismatch(left: Seq<u8>, right: Seq<u8>, from: int, n: int) -> int
    decreases n - from,
{
    if from < n && !(0 <= from < left.len() && from < right.len() && left[from] != right[from]) {
        mismatch(left, right, from + 1, n)
    } else {
        from
    }
}

/// The order of the first `n` bytes of `left` and `right`: the difference
/// of the first two bytes that differ, or 0.
pub open spec fn bytes_order(left: Seq<u8>, right: Seq<u8>, n: usize) -> int {
    let at = mismatch(left, right, 0, n as int);
    if at < n {
        left[at] - right[at]
    } else {
        0
    }
}

fn order_of_bytes(left: &[u8], right: &[u8], n: usize) -> (r: i32)
    requires
        n <= left.len(),
        n <= right.len(),
    ensures
        r == bytes_order(left@, right@, n),
{
    let mut i: usize = 0;
    while i < n
        invariant
            i <= n,
            n <= left.len(),
            n <= right.len(),
            mismatch(left@, right@, 0, n as int) == mismatch(left@, right@, i as int, n as int),
        decreases n - i,
    {
        let a = left[i];
        let b = right[i];
        if a != b {
            return a as i32 - b as i32;
        }
        i += 1;
    }
    0
}

/// Compares the first `n` bytes of `left` and `right`: negative, zero or
/// positive as `left` is below, equal to or above `right`.
pub fn ouma_memcmp(left: &[u8], right: &[u8], n: usize) -> (r: i32)
    requires
        n <= left.len(),
        n <= right.len(),
    ensures
        r == bytes_order(left@, right@, n),
{
    order_of_bytes(left, right, n)
}

/// Copies the first `n` bytes of `src` to the head of `dest`.
pub fn ouma_memcpy(dest: &mut Vec<u8>, src: &[u8], n: usize)
    requires
        n <= src.len(),
        n <= old(dest).len(),
    ensures
        final(dest)@ == splice(old(dest)@, 0, src@.subrange(0, n as int)),
{
    let mut i: usize = 0;
    while i < n
        invariant
            i <= n,
            n <= src.len(),
            n <= dest.len(),
            dest.len() == old(dest).len(),
            dest@ == splice(old(dest)@, 0, src@.subrange(0, i as int)),
        decreases n - i,
    {
        dest[i] = src[i];
        i += 1;
    }
}

/// Moves `n` bytes inside `buf` from position `src` to position `dest`; the
/// two ranges may overlap.
pub fn ouma_memmove(buf: &mut Vec<u8>, dest: usize, src: usize, n: usize)
    requires
        src + n <= old(buf).len(),
        dest + n <= old(buf).len(),
    ensures
        final(buf)@ == splice(old(buf)@, dest as int, old(buf)@.subrange(src as int, src + n)),
{
    if dest < src {
        let mut i: usize = 0;
        while i < n
            invariant
                i <= n,
                dest < src,
                src + n <= buf.len(),
                buf.len() == old(buf).len(),
                forall|k: int|
                    0 <= k < buf.len() && !(dest <= k < dest + i) ==> #[trigger] buf@[k] == old(
                        buf,
                    )@[k],
                forall|k: int| dest <= k < dest + i ==> #[trigger] buf@[k] == old(buf)@[k - dest + src],
            decreases n - i,
        {
            buf[dest + i] = buf[src + i];
            i += 1;
        }
    } else if dest > src {
        let mut i: usize = n;
        while i != 0
            invariant
                i <= n,
                dest > src,
                dest + n <= buf.len(),
                buf.len() == old(buf).len(),
                forall|k: int|
                    0 <= k < buf.len() && !(dest + i <= k < dest + n) ==> #[trigger] buf@[k]
                        == old(buf)@[k],
                forall|k: int| dest + i <= k < dest + n ==> #[trigger] buf@[k] == old(buf)@[k - dest + src],
            decreases i,
        {
            i -= 1;
            buf[dest + i] = buf[src + i];
        }
    }
}

/// Sets the first `n` bytes of `s` to the byte `c`.
pub fn ouma_memset(s: &mut Vec<u8>, c: i32, n: usize)
    requires
        n <= old(s).len(),
    ensures
        final(s)@ == splice(old(s)@, 0, fill(byte_of(c), n as int)),
{
    let b = to_uchar(c);
    let mut i: usize = 0;
    while i < n
        invariant
            i <= n,
            n <= s.len(),
            s.len() == old(s).len(),
            b == byte_of(c),
            s@ == splice(old(s)@, 0, fill(b, i as int)),
        decreases n - i,
    {
        s[i] = b;
        i += 1;
    }
}

/// As `ouma_memset`; the caller keeps the store from being optimised away.
pub fn ouma_memset_explicit(s: &mut Vec<u8>, c: i32, n: usize)
    requires
        n <= old(s).len(),
    ensures
        final(s)@ == splice(old(s)@, 0, fill(byte_of(c), n as int)),
{
    ouma_memset(s, c, n);
}

/// The first position of the byte `c` in the string `s`, or `None` where
/// the string holds none. The terminator counts as part of the string.
pub fn ouma_strchr(s: &[u8], c: i32) -> (r: Option<usize>)
    ensures
        r == if byte_of(c) == 0 {
            Some(string_len(s@) as usize)
        } else if find_byte(s@, byte_of(c), 0, string_len(s@)) < string_len(s@) {
            Some(find_byte(s@, byte_of(c), 0, string_len(s@)) as usize)
        } else {
            None
        },
{
    let b = to_uchar(c);
    let ghost end = string_len(s@);
    proof {
        lemma_string_end(s@, 0);
    }
    let mut i: usize = 0;
    while i < s.len() && s[i] != 0
        invariant
            i <= end <= s.len(),
            end == string_len(s@),
            b == byte_of(c),
            string_end(s@, 0) == string_end(s@, i as int),
            find_byte(s@, b, 0, end) == find_byte(s@, b, i as int, end),
        decreases s.len() - i,
    {
        proof {
            lemma_string_end(s@, i + 1);
        }
        if s[i] == b {
            return Some(i);
        }
        i += 1;
    }
    if b == 0 {
        Some(i)
    } else {
        None
    }
}

/// The last position below `to` at which `s` holds `b`, or -1.
pub open spec fn find_last_byte(s: Seq<u8>, b: u8, to: int) -> int
    decreases to,
{
    if to <= 0 {
        -1
    } else if to <= s.len() && s[to - 1] == b {
        to - 1
    } else {
        find_last_byte(s, b, to - 1)
    }
}

/// The last position of the byte `c` in the string `s`, or `None` where the
/// string holds none. The terminator counts as part of the string.
pub fn ouma_strrchr(s: &[u8], c: i32) -> (r: Option<usize>)
    ensures
        r == if byte_of(c) == 0 {
            Some(string_len(s@) as usize)
        } else if find_last_byte(s@, byte_of(c), string_len(s@)) >= 0 {
            Some(find_last_byte(s@, byte_of(c), string_len(s@)) as usize)
        } else {
            None
        },
{
    let b = to_uchar(c);
    let mut last: Option<usize> = None;
    let mut i: usize = 0;
    while i < s.len() && s[i] != 0
        invariant
            i <= s.len(),
            b == byte_of(c),
            string_end(s@, 0) == string_end(s@, i as int),
            last == if find_last_byte(s@, b, i as int) >= 0 {
                Some(find_last_byte(s@, b, i as int) as usize)
            } else {
                None
            },
        decreases s.len() - i,
    {
        if s[i] == b {
            last = Some(i);
        }
        i += 1;
    }
    if b == 0 {
        Some(i)
    } else {
        last
    }
}

/// What `strncpy` puts at the head of its destination: the string `src`,
/// cut at `n` bytes, and NUL bytes to fill `n` bytes in all.
pub open spec fn padded(src: Seq<u8>, n: int) -> Seq<u8> {
    src.subrange(0, least(string_len(src), n)) + fill(0, n - least(string_len(src), n))
}

/// Copies the string `src` to `dest`, `n` bytes at most, and fills the rest
/// of the `n` bytes with NUL. Returns the position in `dest` of the first
/// NUL written, or `n`.
pub fn ouma_stpncpy(dest: &mut Vec<u8>, src: &[u8], n: usize) -> (r: usize)
    requires
        n <= old(dest).len(),
    ensures
        final(dest)@ == splice(old(dest)@, 0, padded(src@, n as int)),
        r == least(string_len(src@), n as int),
{
    let mut i: usize = 0;
    while i < n && i < src.len() && src[i] != 0
        invariant
            i <= n <= dest.len(),
            i <= src.len(),
            dest.len() == old(dest).len(),
            string_end(src@, 0) == string_end(src@, i as int),
            dest@ == splice(old(dest)@, 0, src@.subrange(0, i as int)),
        decreases n - i,
    {
        dest[i] = src[i];
        i += 1;
    }
    let end = i;
    proof {
        lemma_string_end(src@, i as int);
    }
    while i < n
        invariant
            end <= i <= n <= dest.len(),
            end <= src.len(),
            dest.len() == old(dest).len(),
            dest@ == splice(old(dest)@, 0, src@.subrange(0, end as int) + fill(0, i - end)),
        decreases n - i,
    {
        dest[i] = 0;
        i += 1;
    }
    end
}

/// Copies the string `src` with its terminator to `dest`. Returns the
/// position in `dest` of the terminator.
pub fn ouma_stpcpy(dest: &mut Vec<u8>, src: &[u8]) -> (r: usize)
    requires
        string_len(src@) < old(dest).len(),
    ensures
        final(dest)@ == splice(old(dest)@, 0, string_of(src@).push(0)),
        r == string_len(src@),
{
    let len = string_length(src) + 1;
    ouma_stpncpy(dest, src, len)
}

/// Copies the string `src` to `dest`, `n` bytes at most, and fills the rest
/// of the `n` bytes with NUL.
pub fn ouma_strncpy(dest: &mut Vec<u8>, src: &[u8], n: usize)
    requires
        n <= old(dest).len(),
    ensures
        final(dest)@ == splice(old(dest)@, 0, padded(src@, n as int)),
{
    let _ = ouma_stpncpy(dest, src, n);
}

/// Copies the string `src` with its terminator to `dest`.
pub fn ouma_strcpy(dest: &mut Vec<u8>, src: &[u8])
    requires
        string_len(src@) < old(dest).len(),
    ensures
        final(dest)@ == splice(old(dest)@, 0, string_of(src@).push(0)),
{
    let _ = ouma_stpcpy(dest, src);
}

/// Appends the string `src`, cut at `n` bytes, and a terminator to the
/// string in `dest`. With `n` equal to 0 nothing is written.
pub fn ouma_strncat(dest: &mut Vec<u8>, src: &[u8], n: usize)
    requires
        n != 0 ==> string_len(old(dest)@) + least(string_len(src@), n as int) < old(dest).len(),
    ensures
        final(dest)@ == if n == 0 {
            old(dest)@
        } else {
            splice(
                old(dest)@,
                string_len(old(dest)@),
                src@.subrange(0, least(string_len(src@), n as int)).push(0),
            )
        },
{
    if n == 0 {
        return ;
    }
    proof {
        lemma_string_end(src@, 0);
        lemma_string_end(dest@, 0);
    }
    let start = string_length(dest.as_slice());
    let mut i: usize = 0;
    while i < n && i < src.len() && src[i] != 0
        invariant
            i <= n,
            i <= src.len(),
            i <= least(string_len(src@), n as int),
            start == string_len(old(dest)@),
            start + least(string_len(src@), n as int) < dest.len(),
            dest.len() == old(dest).len(),
            string_end(src@, 0) == string_end(src@, i as int),
            dest@ == splice(old(dest)@, start as int, src@.subrange(0, i as int)),
        decreases n - i,
    {
        proof {
            lemma_string_end(src@, i + 1);
        }
        dest[start + i] = src[i];
        i += 1;
    }
    dest[start + i] = 0;
}

/// Appends the string `src` and a terminator to the string in `dest`.
pub fn ouma_strcat(dest: &mut Vec<u8>, src: &[u8])
    requires
        string_len(old(dest)@) + string_len(src@) < old(dest).len(),
    ensures
        final(dest)@ == splice(old(dest)@, string_len(old(dest)@), string_of(src@).push(0)),
{
    proof {
        lemma_string_end(src@, 0);
        lemma_string_end(dest@, 0);
    }
    let len = string_length(src) + 1;
    ouma_strncat(dest, src, len);
}

/// The first position at or after `from` at which the strings `left` and
/// `right` differ or both end.
pub open spec fn strings_part(left: Seq<u8>, right: Seq<u8>, from: int) -> int
    decreases left.len() - from,
{
    if 0 <= from < left.len() && left[from] != 0 && left[from] == byte_at(right, from) {
        strings_part(left, right, from + 1)
    } else {
        from
    }
}

/// The order of the strings `left` and `right`, looking at no more than
/// their first `n` bytes: the difference of the first two bytes that
/// differ, or 0.
pub open spec fn strings_order_within(left: Seq<u8>, right: Seq<u8>, n: usize) -> int {
    let at = strings_part(left, right, 0);
    if at < n {
        byte_at(left, at) - byte_at(right, at)
    } else {
        0
    }
}

/// The order of the strings `left` and `right`: the difference of the
/// first two bytes that differ, or 0.
pub open spec fn strings_order(left: Seq<u8>, right: Seq<u8>) -> int {
    let at = strings_part(left, right, 0);
    byte_at(left, at) - byte_at(right, at)
}

/// Two strings part no later than either of them ends.
pub proof fn lemma_strings_part(left: Seq<u8>, right: Seq<u8>, from: int)
    requires
        0 <= from,
    ensures
        from <= strings_part(left, right, from),
        from <= right.len() ==> strings_part(left, right, from) <= string_end(right, from),
        from <= left.len() ==> strings_part(left, right, from) <= string_end(left, from),
    decreases left.len() - from,
{
    if from <= right.len() {
        lemma_string_end(right, from);
    }
    if from <= left.len() {
        lemma_string_end(left, from);
    }
    if 0 <= from < left.len() && left[from] != 0 && left[from] == byte_at(right, from) {
        lemma_strings_part(left, right, from + 1);
    }
}

fn order_of_strings(left: &[u8], right: &[u8], n: usize) -> (r: i32)
    ensures
        r == strings_order_within(left@, right@, n),
{
    let mut i: usize = 0;
    while i < n
        invariant
            i <= n,
            i <= left.len(),
            strings_part(left@, right@, 0) == strings_part(left@, right@, i as int),
        decreases n - i,
    {
        let a: u8 = if i < left.len() {
            left[i]
        } else {
            0
        };
        let b: u8 = if i < right.len() {
            right[i]
        } else {
            0
        };
        if a != b {
            return a as i32 - b as i32;
        }
        if a == 0 {
            return 0;
        }
        i += 1;
    }
    proof {
        lemma_strings_part(left@, right@, i as int);
    }
    0
}

/// Compares the strings `left` and `right`, looking at no more than their
/// first `n` bytes.
pub fn ouma_strncmp(left: &[u8], right: &[u8], n: usize) -> (r: i32)
    ensures
        r == strings_order_within(left@, right@, n),
{
    order_of_strings(left, right, n)
}

fn order_of_whole_strings(left: &[u8], right: &[u8]) -> (r: i32)
    requires
        right.len() < usize::MAX,
    ensures
        r == strings_order(left@, right@),
{
    proof {
        lemma_string_end(right@, 0);
        lemma_strings_part(left@, right@, 0);
    }
    let len = string_length(right) + 1;
    order_of_strings(left, right, len)
}

/// Compares the strings `left` and `right`: negative, zero or positive as
/// `left` is below, equal to or above `right`.
pub fn ouma_strcmp(left: &[u8], right: &[u8]) -> (r: i32)
    requires
        right.len() < usize::MAX,
    ensures
        r == strings_order(left@, right@),
{
    order_of_whole_strings(left, right)
}

/// Compares two strings in the collating order of the thread's locale,
/// which is that of their bytes.
pub fn ouma_strcoll(s1: &[u8], s2: &[u8]) -> (r: i32)
    requires
        s2.len() < usize::MAX,
    ensures
        r == strings_order(s1@, s2@),
{
    order_of_whole_strings(s1, s2)
}

/// Compares two strings in the collating order of the locale given, which
/// is that of their bytes.
pub fn ouma_strcoll_l(s1: &[u8], s2: &[u8], _locale: &LocaleStruct) -> (r: i32)
    requires
        s2.len() < usize::MAX,
    ensures
        r == strings_order(s1@, s2@),
{
    order_of_whole_strings(s1, s2)
}

/// Transforms the string `s2` for comparison by bytes, which leaves it as
/// it is, and stores it in `s1` where `n` bytes hold it with its
/// terminator. Returns the length of the string.
pub fn ouma_strxfrm(s1: &mut Vec<u8>, s2: &[u8], n: usize) -> (r: usize)
    requires
        string_len(s2@) < n ==> n <= old(s1).len(),
    ensures
        r == string_len(s2@),
        final(s1)@ == if string_len(s2@) < n {
            splice(old(s1)@, 0, padded(s2@, n as int))
        } else {
            old(s1)@
        },
{
    let len = string_length(s2);
    if len < n {
        ouma_strncpy(s1, s2, n);
    }
    len
}

/// As `ouma_strxfrm`, for the locale given.
pub fn ouma_strxfrm_l(s1: &mut Vec<u8>, s2: &[u8], n: usize, _locale: &LocaleStruct) -> (r: usize)
    requires
        string_len(s2@) < n ==> n <= old(s1).len(),
    ensures
        r == string_len(s2@),
        final(s1)@ == if string_len(s2@) < n {
            splice(old(s1)@, 0, padded(s2@, n as int))
        } else {
            old(s1)@
        },
{
    let len = string_length(s2);
    if len < n {
        ouma_strncpy(s1, s2, n);
    }
    len
}

/// The length of the string `s`.
pub fn ouma_strlen(s: &[u8]) -> (r: usize)
    ensures
        r == string_len(s@),
{
    string_length(s)
}

/// The length of the string `s`, or `n` where the string is longer.
pub fn ouma_strnlen(s: &[u8], n: usize) -> (r: usize)
    ensures
        r == least(string_len(s@), n as int),
{
    let mut i: usize = 0;
    while i < n && i < s.len() && s[i] != 0
        invariant
            i <= n,
            i <= s.len(),
            string_end(s@, 0) == string_end(s@, i as int),
        decreases n - i,
    {
        i += 1;
    }
    proof {
        lemma_string_end(s@, i as int);
    }
    i
}

/// The byte `b` stands among the first `n` bytes of `s`.
pub open spec fn occurs(s: Seq<u8>, n: int, b: int) -> bool
    decreases n,
{
    n > 0 && ((n <= s.len() && s[n - 1] == b) || occurs(s, n - 1, b))
}

/// The byte `b` stands in the string `set`.
pub open spec fn in_string(set: Seq<u8>, b: u8) -> bool {
    occurs(set, string_len(set), b as int)
}

/// The first position at or after `from` at which the string `s` ends or
/// holds a byte that stands in the string `set` otherwise than `inside`
/// says: with `inside`, the first byte that is not in `set`; without, the
/// first that is.
pub open spec fn span_end(s: Seq<u8>, set: Seq<u8>, from: int, inside: bool) -> int
    decreases s.len() - from,
{
    if 0 <= from < s.len() && s[from] != 0 && in_string(set, s[from]) == inside {
        span_end(s, set, from + 1, inside)
    } else {
        from
    }
}

fn bytes_of_string(segment: &[u8]) -> (set: ByteSet)
    ensures
        forall|b: u8| members(set).contains(b as int) <==> in_string(segment@, b),
{
    let mut set = byteset_new();
    let mut i: usize = 0;
    while i < segment.len() && segment[i] != 0
        invariant
            i <= segment.len(),
            string_end(segment@, 0) == string_end(segment@, i as int),
            forall|b: u8| members(set).contains(b as int) <==> occurs(segment@, i as int, b as int),
        decreases segment.len() - i,
    {
        byteset_insert(&mut set, segment[i] as usize);
        i += 1;
    }
    set
}

fn span(s: &[u8], set: &ByteSet, from: usize, inside: bool, Ghost(chars): Ghost<Seq<u8>>) -> (r:
    usize)
    requires
        from <= s.len(),
        forall|b: u8| members(*set).contains(b as int) <==> in_string(chars, b),
    ensures
        r == span_end(s@, chars, from as int, inside),
        from <= r <= s.len(),
{
    let mut i: usize = from;
    while i < s.len() && s[i] != 0 && byteset_contains(set, s[i] as usize) == inside
        invariant
            from <= i <= s.len(),
            forall|b: u8| members(*set).contains(b as int) <==> in_string(chars, b),
            span_end(s@, chars, from as int, inside) == span_end(s@, chars, i as int, inside),
        decreases s.len() - i,
    {
        i += 1;
    }
    i
}

/// The length of the head of the string `src` that holds no byte of the
/// string `segment`.
pub fn ouma_strcspn(src: &[u8], segment: &[u8]) -> (r: usize)
    ensures
        r == span_end(src@, segment@, 0, false),
{
    let set = bytes_of_string(segment);
    span(src, &set, 0, false, Ghost(segment@))
}

/// The length of the head of the string `src` that holds bytes of the
/// string `segment` only.
pub fn ouma_strspn(src: &[u8], segment: &[u8]) -> (r: usize)
    ensures
        r == span_end(src@, segment@, 0, true),
{
    let set = bytes_of_string(segment);
    span(src, &set, 0, true, Ghost(segment@))
}

/// The first position in the string `src` of a byte of the string
/// `breakset`, or `None` where it holds none.
pub fn ouma_strpbrk(src: &[u8], breakset: &[u8]) -> (r: Option<usize>)
    ensures
        r == if byte_at(src@, span_end(src@, breakset@, 0, false)) != 0 {
            Some(span_end(src@, breakset@, 0, false) as usize)
        } else {
            None
        },
{
    let set = bytes_of_string(breakset);
    let at = span(src, &set, 0, false, Ghost(breakset@));
    if at < src.len() && src[at] != 0 {
        Some(at)
    } else {
        None
    }
}

/// The string `needle` stands in `haystack` at `at`.
pub open spec fn matches_at(haystack: Seq<u8>, needle: Seq<u8>, at: int) -> bool {
    forall|k: int| 0 <= k < string_len(needle) ==> byte_at(haystack, at + k) == #[trigger] needle[k]
}

/// The first position at or after `from` at which the string `haystack`
/// ends or holds the string `needle`.
pub open spec fn first_match(haystack: Seq<u8>, needle: Seq<u8>, from: int) -> int
    decreases haystack.len() - from,
{
    if 0 <= from < haystack.len() && haystack[from] != 0 && !matches_at(haystack, needle, from) {
        first_match(haystack, needle, from + 1)
    } else {
        from
    }
}

fn match_here(haystack: &[u8], needle: &[u8], at: usize) -> (r: bool)
    requires
        at <= haystack.len(),
    ensures
        r == matches_at(haystack@, needle@, at as int),
{
    let mut i: usize = 0;
    while i < needle.len() && needle[i] != 0
        invariant
            i <= needle.len(),
            at <= haystack.len(),
            string_end(needle@, 0) == string_end(needle@, i as int),
            forall|k: int| 0 <= k < i ==> byte_at(haystack@, at + k) == #[trigger] needle@[k],
        decreases needle.len() - i,
    {
        proof {
            lemma_string_end(needle@, i + 1);
        }
        if i >= haystack.len() - at || haystack[at + i] != needle[i] {
            return false;
        }
        i += 1;
    }
    true
}

/// The first position in the string `haystack` at which the string
/// `needle` stands, or `None` where it stands nowhere. An empty needle
/// stands at the start.
pub fn ouma_strstr(haystack: &[u8], needle: &[u8]) -> (r: Option<usize>)
    ensures
        r == if string_len(needle@) == 0 {
            Some(0usize)
        } else if byte_at(haystack@, first_match(haystack@, needle@, 0)) != 0 {
            Some(first_match(haystack@, needle@, 0) as usize)
        } else {
            None
        },
{
    let len = string_length(needle);
    if len == 0 {
        return Some(0);
    }
    let mut h: usize = 0;
    while h < haystack.len() && haystack[h] != 0
        invariant
            h <= haystack.len(),
            first_match(haystack@, needle@, 0) == first_match(haystack@, needle@, h as int),
        decreases haystack.len() - h,
    {
        if match_here(haystack, needle, h) {
            return Some(h);
        }
        h += 1;
    }
    None
}

/// What one step of the tokenizer does to the text `buf`, going on from
/// `start`.
pub struct Token {
    /// The position of the token, where one is left.
    pub token: Option<usize>,
    /// The position at which the next step goes on.
    pub next: usize,
    /// The text after the step: the separator that ended the token is
    /// replaced by a NUL byte.
    pub text: Seq<u8>,
}

/// One step of the tokenizer: pass over separators; the token reaches from
/// there to the next separator or to the end of the string.
pub open spec fn next_token(buf: Seq<u8>, sep: Seq<u8>, start: int) -> Token {
    let token = span_end(buf, sep, start, true);
    let end = span_end(buf, sep, token, false);
    if byte_at(buf, token) == 0 {
        Token { token: None, next: token as usize, text: buf }
    } else if byte_at(buf, end) == 0 {
        Token { token: Some(token as usize), next: end as usize, text: buf }
    } else {
        Token { token: Some(token as usize), next: (end + 1) as usize, text: buf.update(end, 0) }
    }
}

/// Splits the string in `buf` into tokens at the bytes of the string `sep`.
/// With `s` the step starts at that position; without, it goes on where
/// the last step on `lasts` ended, and does nothing where there was none.
/// Returns the position of the next token, which it ends with a NUL byte,
/// or `None` where no token is left.
pub fn ouma_strtok_r(buf: &mut Vec<u8>, s: Option<usize>, sep: &[u8], lasts: &mut Option<usize>) -> (r:
    Option<usize>)
    requires
        s matches Some(start) ==> start <= old(buf).len(),
        s is None ==> (*old(lasts) matches Some(start) ==> start <= old(buf).len()),
    ensures
        match (if s is Some {
            s
        } else {
            *old(lasts)
        }) {
            Some(start) => {
                let step = next_token(old(buf)@, sep@, start as int);
                &&& r == step.token
                &&& *final(lasts) == Some(step.next)
                &&& final(buf)@ == step.text
                &&& step.next <= final(buf).len()
            },
            None => r is None && *final(lasts) == *old(lasts) && final(buf)@ == old(buf)@,
        },
{
    let start: usize = match s {
        Some(at) => at,
        None => match *lasts {
            Some(at) => at,
            None => {
                return None;
            },
        },
    };
    let set = bytes_of_string(sep);
    let token = span(buf.as_slice(), &set, start, true, Ghost(sep@));
    if token >= buf.len() || buf[token] == 0 {
        *lasts = Some(token);
        return None;
    }
    let end = span(buf.as_slice(), &set, token, false, Ghost(sep@));
    if end < buf.len() && buf[end] != 0 {
        buf[end] = 0;
        *lasts = Some(end + 1);
    } else {
        *lasts = Some(end);
    }
    Some(token)
}

/// As `ouma_strtok_r`, with the place to go on kept in the thread's
/// context.
pub fn ouma_strtok(ctx: &mut ThreadContext, buf: &mut Vec<u8>, s: Option<usize>, sep: &[u8]) -> (r:
    Option<usize>)
    requires
        s matches Some(start) ==> start <= old(buf).len(),
        s is None ==> (old(ctx).strtok_last matches Some(start) ==> start <= old(buf).len()),
    ensures
        final(ctx).locale == old(ctx).locale,
        final(ctx).errno == old(ctx).errno,
        match (if s is Some {
            s
        } else {
            old(ctx).strtok_last
        }) {
            Some(start) => {
                let step = next_token(old(buf)@, sep@, start as int);
                &&& r == step.token
                &&& final(ctx).strtok_last == Some(step.next)
                &&& final(buf)@ == step.text
                &&& step.next <= final(buf).len()
            },
            None => r is None && final(ctx).strtok_last == old(ctx).strtok_last && final(buf)@
                == old(buf)@,
        },
{
    let mut last = ctx.strtok_last;
    let r = ouma_strtok_r(buf, s, sep, &mut last);
    ctx.strtok_last = last;
    r
}

fn copy_with_nul(s: &[u8], len: usize) -> (copy: Vec<u8>)
    requires
        len <= s.len(),
    ensures
        copy@ == s@.subrange(0, len as int).push(0),
{
    let mut copy: Vec<u8> = Vec::new();
    let mut i: usize = 0;
    while i < len
        invariant
            i <= len <= s.len(),
            copy@ == s@.subrange(0, i as int),
        decreases len - i,
    {
        copy.push(s[i]);
        i += 1;
    }
    copy.push(0);
    copy
}

/// A new buffer that holds the string `s`, cut at `sz` bytes, and its
/// terminator; or `None` with out-of-memory set where no block of that size
/// can be had.
pub fn ouma_strndup(ctx: &mut ThreadContext, s: &[u8], sz: usize) -> (r: Option<Vec<u8>>)
    requires
        s.len() < usize::MAX,
    ensures
        final(ctx).locale == old(ctx).locale,
        final(ctx).strtok_last == old(ctx).strtok_last,
        r is Some <==> least(string_len(s@), sz as int) + 1 <= isize::MAX - 15,
        r matches Some(copy) ==> copy@ == s@.subrange(0, least(string_len(s@), sz as int)).push(0),
        final(ctx).errno == if r is None {
            ENOMEM
        } else {
            old(ctx).errno
        },
{
    proof {
        lemma_string_end(s@, 0);
    }
    let len = ouma_strnlen(s, sz);
    match ouma_malloc(ctx, len + 1) {
        Some(_) => Some(copy_with_nul(s, len)),
        None => None,
    }
}

/// A new buffer that holds the string `s` and its terminator; or `None`
/// with out-of-memory set where no block of that size can be had.
pub fn ouma_strdup(ctx: &mut ThreadContext, s: &[u8]) -> (r: Option<Vec<u8>>)
    requires
        s.len() < usize::MAX,
    ensures
        final(ctx).locale == old(ctx).locale,
        final(ctx).strtok_last == old(ctx).strtok_last,
        r is Some <==> string_len(s@) + 1 <= isize::MAX - 15,
        r matches Some(copy) ==> copy@ == string_of(s@).push(0),
        final(ctx).errno == if r is None {
            ENOMEM
        } else {
            old(ctx).errno
        },
{
    proof {
        lemma_string_end(s@, 0);
    }
    let len = string_length(s);
    match ouma_malloc(ctx, len + 1) {
        Some(_) => Some(copy_with_nul(s, len)),
        None => None,
    }
}

/// The message for the error `num`: its entry in `errlist`, or the message
/// for an error without a name.
pub open spec fn error_message(errlist: Seq<&str>, num: i32) -> Seq<u8> {
    if 0 <= num < errlist.len() {
        errlist[num as int].spec_bytes()
    } else {
        error_text(num)
    }
}

/// Writes the message for the error `num`, with its terminator, to the
/// first `len` bytes of `buf`; `errlist` holds the messages of the errors
/// that have a name. Returns 0; or the range error, with nothing written,
/// where the error has a name that `len` bytes cannot hold or there is no
/// buffer; or the invalid-argument error, with the message for an error
/// without a name written.
pub fn ouma_strerror_r(errlist: &[&str], num: i32, buf: Option<&mut Vec<u8>>, len: usize) -> (r:
    i32)
    requires
        buf matches Some(b) ==> len <= b@.len(),
        !(0 <= num < errlist.len()) ==> buf is Some && error_text(num).len() < len,
    ensures
        r == if !(0 <= num < errlist.len()) {
            EINVAL
        } else if buf is None || error_message(errlist@, num).len() >= len {
            ERANGE
        } else {
            0
        },
        buf matches Some(b) ==> final(b)@ == if r == ERANGE {
            b@
        } else {
            splice(b@, 0, error_message(errlist@, num).push(0))
        },
{
    if 0 <= num && (num as usize) < errlist.len() {
        let errstr: &[u8] = errlist[num as usize].as_bytes();
        match buf {
            Some(b) => {
                if errstr.len() >= len {
                    return ERANGE;
                }
                put_string(b, errstr);
                0
            },
            None => ERANGE,
        }
    } else {
        match buf {
            Some(b) => {
                build_error_string(num, b, len);
            },
            None => {},
        }
        EINVAL
    }
}

/// Writes the message for the error `num`, with its terminator, to the
/// thread's buffer `errbuf`, and sets the invalid-argument error where the
/// error has no name or its name does not fit.
pub fn ouma_strerror(ctx: &mut ThreadContext, errlist: &[&str], num: i32, errbuf: &mut Vec<u8>)
    requires
        !(0 <= num < errlist.len()) ==> error_text(num).len() < old(errbuf).len(),
    ensures
        final(ctx).locale == old(ctx).locale,
        final(ctx).strtok_last == old(ctx).strtok_last,
        final(ctx).errno == if 0 <= num < errlist.len() && error_message(errlist@, num).len() < old(
            errbuf,
        ).len() {
            old(ctx).errno
        } else {
            EINVAL
        },
        final(errbuf)@ == if 0 <= num < errlist.len() && error_message(errlist@, num).len() >= old(
            errbuf,
        ).len() {
            old(errbuf)@
        } else {
            splice(old(errbuf)@, 0, error_message(errlist@, num).push(0))
        },
{
    let len = errbuf.len();
    if ouma_strerror_r(errlist, num, Some(errbuf), len) != 0 {
        ctx.errno = EINVAL;
    }
}

/// As `ouma_strerror`, for the locale given.
pub fn ouma_strerror_l(
    ctx: &mut ThreadContext,
    errlist: &[&str],
    num: i32,
    _locale: &LocaleStruct,
    errbuf: &mut Vec<u8>,
)
    requires
        !(0 <= num < errlist.len()) ==> error_text(num).len() < old(errbuf).len(),
    ensures
        final(ctx).locale == old(ctx).locale,
        final(ctx).strtok_last == old(ctx).strtok_last,
        final(ctx).errno == if 0 <= num < errlist.len() && error_message(errlist@, num).len() < old(
            errbuf,
        ).len() {
            old(ctx).errno
        } else {
            EINVAL
        },
        final(errbuf)@ == if 0 <= num < errlist.len() && error_message(errlist@, num).len() >= old(
            errbuf,
        ).len() {
            old(errbuf)@
        } else {
            splice(old(errbuf)@, 0, error_message(errlist@, num).push(0))
        },
{
    ouma_strerror(ctx, errlist, num, errbuf);
}

/// The message for the signal `num`: its name, or the message for a signal
/// without one.
pub open spec fn signal_message(num: i32) -> Seq<u8> {
    if 0 <= num < SYS_NSIGNAME {
        signal_name(num as int).spec_bytes()
    } else {
        signal_text(num)
    }
}

/// Writes the message for the signal `num`, with its terminator, to the
/// thread's buffer `sigbuf`.
pub fn ouma_strsignal(num: i32, sigbuf: &mut Vec<u8>)
    requires
        signal_message(num).len() < old(sigbuf).len(),
    ensures
        final(sigbuf)@ == splice(old(sigbuf)@, 0, signal_message(num).push(0)),
{
    if 0 <= num && (num as usize) < SYS_NSIGNAME {
        let sigstr: &str = sys_siglist(num as usize);
        put_string(sigbuf, sigstr.as_bytes());
    } else {
        let len = sigbuf.len();
        build_signal_string(num, sigbuf, len);
    }
}

} // verus!
