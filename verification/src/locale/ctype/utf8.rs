//! The UTF-8 codec: sequences of one to four bytes, resumable in the middle.

use vstd::prelude::*;
use crate::errno::EILSEQ;
use crate::locale::ctype::{overwrite, Decoding, ILLEGAL, INCOMPLETE};
use crate::locale::{is_surrogate, mbstate_set_init, mbstate_set_multibyte, MbState};

verus! {

/// `b` continues a multibyte sequence.
pub open spec fn is_continuation(b: u8) -> bool {
    0x80 <= b <= 0xbf
}

/// `c32` is a Unicode scalar value: at most 0x10ffff and no surrogate.
pub open spec fn is_scalar(c32: int) -> bool {
    0 <= c32 <= 0x10ffff && !is_surrogate(c32)
}

/// The unfinished sequences a decode can have left behind: one to three
/// bytes to come, and no more bits gathered than the bytes read can hold.
pub open spec fn resumable(st: MbState) -> bool {
    ||| st.bytesleft == 1 && st.partial < 0x8000
    ||| st.bytesleft == 2 && st.partial < 0x200
    ||| st.bytesleft == 3 && st.partial < 0x8
}

/// The rest of a sequence from position `i` of `s`: each byte must be a
/// continuation byte and adds six bits; the last one completes the code
/// point, which must reach `lowerbound` and be a scalar value. `entry` is the
/// state that the call began in.
pub open spec fn utf8_resume(
    bytesleft: int,
    partial: int,
    lowerbound: u32,
    s: Seq<u8>,
    i: int,
    entry: MbState,
) -> Decoding
    decreases s.len() - i,
{
    if i < 0 || i >= s.len() {
        Decoding {
            ret: INCOMPLETE as int,
            c32: 0,
            state: MbState {
                surrogate: 0,
                bytesleft: bytesleft as u32,
                partial: partial as u32,
                lowerbound,
            },
        }
    } else if !is_continuation(s[i]) {
        Decoding { ret: ILLEGAL as int, c32: 0, state: entry }
    } else {
        let gathered = partial * 64 + (s[i] - 0x80);
        if bytesleft > 1 {
            utf8_resume(bytesleft - 1, gathered, lowerbound, s, i + 1, entry)
        } else if gathered < lowerbound || !is_scalar(gathered) {
            Decoding { ret: ILLEGAL as int, c32: 0, state: entry }
        } else {
            Decoding { ret: i + 1, c32: gathered as u32, state: MbState::initial() }
        }
    }
}

/// One decode step over `s` from the state `st`.
pub open spec fn utf8_decode(s: Seq<u8>, st: MbState) -> Decoding {
    if s.len() == 0 {
        Decoding { ret: INCOMPLETE as int, c32: 0, state: st }
    } else if st.bytesleft != 0 {
        if resumable(st) {
            utf8_resume(st.bytesleft as int, st.partial as int, st.lowerbound, s, 0, st)
        } else {
            Decoding { ret: ILLEGAL as int, c32: 0, state: st }
        }
    } else if s[0] < 0x80 {
        Decoding { ret: 1, c32: s[0] as u32, state: MbState::initial() }
    } else if 0xc0 <= s[0] <= 0xdf {
        utf8_resume(1, s[0] - 0xc0, 0x80, s, 1, st)
    } else if 0xe0 <= s[0] <= 0xef {
        utf8_resume(2, s[0] - 0xe0, 0x800, s, 1, st)
    } else if 0xf0 <= s[0] <= 0xf7 {
        utf8_resume(3, s[0] - 0xf0, 0x10000, s, 1, st)
    } else {
        Decoding { ret: ILLEGAL as int, c32: 0, state: st }
    }
}

/// The UTF-8 bytes of a scalar value; no other number has any.
pub open spec fn utf8_encode(c32: u32) -> Option<Seq<u8>> {
    if c32 < 0x80 {
        Some(seq![c32 as u8])
    } else if c32 < 0x800 {
        Some(seq![(0xc0 + c32 / 0x40) as u8, (0x80 + c32 % 0x40) as u8])
    } else if c32 < 0x10000 {
        if is_surrogate(c32 as int) {
            None
        } else {
            Some(
                seq![
                    (0xe0 + c32 / 0x1000) as u8,
                    (0x80 + c32 / 0x40 % 0x40) as u8,
                    (0x80 + c32 % 0x40) as u8,
                ],
            )
        }
    } else if c32 <= 0x10ffff {
        Some(
            seq![
                (0xf0 + c32 / 0x40000) as u8,
                (0x80 + c32 / 0x1000 % 0x40) as u8,
                (0x80 + c32 / 0x40 % 0x40) as u8,
                (0x80 + c32 % 0x40) as u8,
            ],
        )
    } else {
        None
    }
}

/// What the rest of a sequence can come to: an illegal sequence with the
/// state untouched, an unfinished sequence kept in the state, or a scalar
/// value of at least `lowerbound` with the state back at the start.
pub proof fn lemma_utf8_resume(
    bytesleft: int,
    partial: int,
    lowerbound: u32,
    s: Seq<u8>,
    i: int,
    entry: MbState,
)
    requires
        0 <= i <= s.len(),
        0 <= partial,
        bytesleft == 1 && partial < 0x8000 || bytesleft == 2 && partial < 0x200 || bytesleft == 3
            && partial < 0x8,
    ensures
        ({
            let d = utf8_resume(bytesleft, partial, lowerbound, s, i, entry);
            ||| d.ret == ILLEGAL && d.c32 == 0 && d.state == entry
            ||| d.ret == INCOMPLETE && d.c32 == 0 && resumable(d.state) && !d.state.has_surrogate()
                && d.state.lowerbound == lowerbound && i <= s.len() < i + bytesleft
            ||| i < d.ret <= i + bytesleft && d.ret <= s.len() && is_scalar(d.c32 as int) && d.c32
                >= lowerbound && d.state == MbState::initial()
        }),
    decreases s.len() - i,
{
    if i < s.len() && is_continuation(s[i]) && bytesleft > 1 {
        lemma_utf8_resume(bytesleft - 1, partial * 64 + (s[i] - 0x80), lowerbound, s, i + 1, entry);
    }
}

/// What one decode step can come to: an illegal sequence with the state
/// untouched, an unfinished sequence (nothing read, or the sequence kept in
/// the state), or one to four bytes read for a scalar value with the state
/// back at the start.
pub proof fn lemma_utf8_decode(s: Seq<u8>, st: MbState)
    ensures
        ({
            let d = utf8_decode(s, st);
            ||| d.ret == ILLEGAL && d.c32 == 0 && d.state == st
            ||| d.ret == INCOMPLETE && d.c32 == 0 && (d.state == st || (resumable(d.state)
                && !d.state.has_surrogate()))
            ||| 1 <= d.ret <= 4 && d.ret <= s.len() && is_scalar(d.c32 as int) && d.state
                == MbState::initial()
        }),
{
    if s.len() > 0 {
        if st.bytesleft != 0 {
            if resumable(st) {
                lemma_utf8_resume(st.bytesleft as int, st.partial as int, st.lowerbound, s, 0, st);
            }
        } else if 0xc0 <= s[0] <= 0xdf {
            lemma_utf8_resume(1, s[0] - 0xc0, 0x80, s, 1, st);
        } else if 0xe0 <= s[0] <= 0xef {
            lemma_utf8_resume(2, s[0] - 0xe0, 0x800, s, 1, st);
        } else if 0xf0 <= s[0] <= 0xf7 {
            lemma_utf8_resume(3, s[0] - 0xf0, 0x10000, s, 1, st);
        }
    }
}

/// Decoding the bytes of a scalar value from the initial state reads just
/// those bytes, whatever follows them, and gives the scalar value back.
pub proof fn lemma_utf8_round_trip(c32: u32, rest: Seq<u8>)
    requires
        is_scalar(c32 as int),
    ensures
        utf8_encode(c32) is Some,
        utf8_decode(utf8_encode(c32).unwrap() + rest, MbState::initial()) == (Decoding {
            ret: utf8_encode(c32).unwrap().len() as int,
            c32,
            state: MbState::initial(),
        }),
{
    reveal_with_fuel(utf8_resume, 4);
}

/// The rest of a sequence reads the same behind any prefix: the bytes read
/// are counted from the start of the whole text, and an illegal sequence
/// leaves the state that each call began in.
pub proof fn lemma_resume_behind(
    bytesleft: int,
    partial: int,
    lowerbound: u32,
    prefix: Seq<u8>,
    s: Seq<u8>,
    j: int,
    entry: MbState,
    behind: MbState,
)
    requires
        0 <= j <= s.len(),
    ensures
        ({
            let whole = utf8_resume(
                bytesleft,
                partial,
                lowerbound,
                prefix + s,
                prefix.len() + j,
                entry,
            );
            let part = utf8_resume(bytesleft, partial, lowerbound, s, j, behind);
            &&& part.ret >= 0 ==> whole == (Decoding {
                ret: part.ret + prefix.len(),
                c32: part.c32,
                state: part.state,
            })
            &&& part.ret == INCOMPLETE ==> whole == part
            &&& part.ret == ILLEGAL ==> whole == (Decoding {
                ret: ILLEGAL as int,
                c32: 0,
                state: entry,
            })
        }),
    decreases s.len() - j,
{
    if j < s.len() {
        assert((prefix + s)[prefix.len() + j] == s[j]);
        if is_continuation(s[j]) && bytesleft > 1 {
            lemma_resume_behind(
                bytesleft - 1,
                partial * 64 + (s[j] - 0x80),
                lowerbound,
                prefix,
                s,
                j + 1,
                entry,
                behind,
            );
        }
    }
}

/// Where the rest of a sequence runs out of bytes, reading it with more
/// bytes behind goes on from what was gathered; where it does not, the
/// bytes behind change nothing.
pub proof fn lemma_resume_split(
    bytesleft: int,
    partial: int,
    lowerbound: u32,
    a: Seq<u8>,
    b: Seq<u8>,
    i: int,
    entry: MbState,
)
    requires
        0 <= i <= a.len(),
        0 <= partial,
        bytesleft == 1 && partial < 0x8000 || bytesleft == 2 && partial < 0x200 || bytesleft == 3
            && partial < 0x8,
    ensures
        ({
            let first = utf8_resume(bytesleft, partial, lowerbound, a, i, entry);
            let whole = utf8_resume(bytesleft, partial, lowerbound, a + b, i, entry);
            if first.ret == INCOMPLETE {
                whole == utf8_resume(
                    first.state.bytesleft as int,
                    first.state.partial as int,
                    lowerbound,
                    a + b,
                    a.len() as int,
                    entry,
                )
            } else {
                whole == first
            }
        }),
    decreases a.len() - i,
{
    if i < a.len() {
        assert((a + b)[i] == a[i]);
        if is_continuation(a[i]) && bytesleft > 1 {
            lemma_resume_split(
                bytesleft - 1,
                partial * 64 + (a[i] - 0x80),
                lowerbound,
                a,
                b,
                i + 1,
                entry,
            );
        }
    }
}

/// Suspension and resumption: decoding a text in two calls, the second on
/// the state that the first left, comes to what decoding it in one call
/// comes to. Where the first part decides the outcome, what follows it
/// changes nothing; where it runs out, the second call completes the code
/// point, runs out in its turn, or meets the illegal byte, as the one call
/// does.
pub proof fn lemma_utf8_split(a: Seq<u8>, b: Seq<u8>, st: MbState)
    ensures
        ({
            let first = utf8_decode(a, st);
            let second = utf8_decode(b, first.state);
            let whole = utf8_decode(a + b, st);
            if first.ret != INCOMPLETE {
                whole == first
            } else {
                &&& second.ret >= 0 ==> whole == (Decoding {
                    ret: a.len() + second.ret,
                    c32: second.c32,
                    state: second.state,
                })
                &&& second.ret == INCOMPLETE ==> whole == second
                &&& second.ret == ILLEGAL ==> whole == (Decoding {
                    ret: ILLEGAL as int,
                    c32: 0,
                    state: st,
                })
            }
        }),
{
    let s = a + b;
    let first = utf8_decode(a, st);
    if a.len() == 0 {
        assert(s =~= b);
        lemma_utf8_decode(b, st);
    } else if b.len() == 0 {
        assert(s =~= a);
        lemma_utf8_decode(a, st);
    } else {
        assert(s[0] == a[0]);
        lemma_utf8_decode(a, st);
        if st.bytesleft != 0 {
            if resumable(st) {
                lemma_resume_split(st.bytesleft as int, st.partial as int, st.lowerbound, a, b, 0, st);
                lemma_utf8_resume(st.bytesleft as int, st.partial as int, st.lowerbound, a, 0, st);
            }
        } else if 0xc0 <= a[0] <= 0xdf {
            lemma_resume_split(1, a[0] - 0xc0, 0x80, a, b, 1, st);
            lemma_utf8_resume(1, a[0] - 0xc0, 0x80, a, 1, st);
        } else if 0xe0 <= a[0] <= 0xef {
            lemma_resume_split(2, a[0] - 0xe0, 0x800, a, b, 1, st);
            lemma_utf8_resume(2, a[0] - 0xe0, 0x800, a, 1, st);
        } else if 0xf0 <= a[0] <= 0xf7 {
            lemma_resume_split(3, a[0] - 0xf0, 0x10000, a, b, 1, st);
            lemma_utf8_resume(3, a[0] - 0xf0, 0x10000, a, 1, st);
        }
        if first.ret == INCOMPLETE {
            lemma_resume_behind(
                first.state.bytesleft as int,
                first.state.partial as int,
                first.state.lowerbound,
                a,
                b,
                0,
                st,
                first.state,
            );
        }
    }
}

/// Only the shortest form is read: the bytes that a decode from the
/// initial state reads are the bytes that the code point encodes to, so
/// that no overlong form and no encoded surrogate is accepted.
pub proof fn lemma_utf8_canonical(s: Seq<u8>)
    requires
        utf8_decode(s, MbState::initial()).ret >= 0,
    ensures
        ({
            let d = utf8_decode(s, MbState::initial());
            &&& is_scalar(d.c32 as int)
            &&& 1 <= d.ret <= s.len()
            &&& utf8_encode(d.c32) == Some(s.subrange(0, d.ret))
        }),
{
    let d = utf8_decode(s, MbState::initial());
    lemma_utf8_decode(s, MbState::initial());
    reveal_with_fuel(utf8_resume, 4);
    assert(utf8_encode(d.c32).unwrap() =~= s.subrange(0, d.ret));
}

/// Decodes one code point from the head of `s`, going on from the sequence
/// that `ps` holds. Returns the number of bytes read and stores the code
/// point; or returns `INCOMPLETE` and keeps what was read in `ps`; or
/// returns `ILLEGAL`, sets `errno` and leaves `ps` as it was.
pub fn mbtoc32(pc32: &mut u32, s: &[u8], ps: &mut MbState, errno: &mut i32) -> (r: isize)
    ensures
        r == utf8_decode(s@, *old(ps)).ret,
        *final(ps) == utf8_decode(s@, *old(ps)).state,
        *final(pc32) == if r >= 0 {
            utf8_decode(s@, *old(ps)).c32
        } else {
            *old(pc32)
        },
        *final(errno) == if r == ILLEGAL {
            EILSEQ
        } else {
            *old(errno)
        },
        r == ILLEGAL || r == INCOMPLETE || (1 <= r <= 4 && is_scalar(*final(pc32) as int)),
{
    if s.len() < 1 {
        return INCOMPLETE;
    }
    let mut bytesleft: u32 = ps.bytesleft;
    let mut partial: u32 = ps.partial;
    let mut lowerbound: u32 = ps.lowerbound;
    let mut i: usize = 0;
    if ps.bytesleft != 0 {
        let fits = (ps.bytesleft == 1 && ps.partial < 0x8000) || (ps.bytesleft == 2 && ps.partial
            < 0x200) || (ps.bytesleft == 3 && ps.partial < 0x8);
        if !fits {
            *errno = EILSEQ;
            return ILLEGAL;
        }
    } else {
        let lead: u8 = s[0];
        if lead < 0x80 {
            *pc32 = lead as u32;
            mbstate_set_init(ps);
            return 1;
        } else if 0xc0 <= lead && lead <= 0xdf {
            bytesleft = 1;
            partial = (lead - 0xc0) as u32;
            lowerbound = 0x80;
        } else if 0xe0 <= lead && lead <= 0xef {
            bytesleft = 2;
            partial = (lead - 0xe0) as u32;
            lowerbound = 0x800;
        } else if 0xf0 <= lead && lead <= 0xf7 {
            bytesleft = 3;
            partial = (lead - 0xf0) as u32;
            lowerbound = 0x10000;
        } else {
            *errno = EILSEQ;
            return ILLEGAL;
        }
        i = 1;
    }
    while i < s.len()
        invariant
            i <= s.len(),
            1 <= bytesleft <= 3,
            i + bytesleft <= 4,
            bytesleft == 1 ==> partial < 0x8000,
            bytesleft == 2 ==> partial < 0x200,
            bytesleft == 3 ==> partial < 0x8,
            *ps == *old(ps),
            *pc32 == *old(pc32),
            *errno == *old(errno),
            utf8_decode(s@, *old(ps)) == utf8_resume(
                bytesleft as int,
                partial as int,
                lowerbound,
                s@,
                i as int,
                *old(ps),
            ),
        decreases s.len() - i,
    {
        let b: u8 = s[i];
        if b < 0x80 || b > 0xbf {
            *errno = EILSEQ;
            return ILLEGAL;
        }
        partial = partial * 64 + (b - 0x80) as u32;
        i += 1;
        bytesleft -= 1;
        if bytesleft == 0 {
            if partial < lowerbound || (0xd800 <= partial && partial <= 0xdfff) || partial
                > 0x10ffff {
                *errno = EILSEQ;
                return ILLEGAL;
            }
            *pc32 = partial;
            mbstate_set_init(ps);
            return i as isize;
        }
    }
    mbstate_set_multibyte(ps, bytesleft, partial, lowerbound);
    INCOMPLETE
}

/// Encodes `wc` into the head of `s`: writes one to four bytes and returns
/// their number, or returns `ILLEGAL` and sets `errno` where `wc` is no
/// scalar value.
pub fn c32tomb(s: &mut Vec<u8>, wc: u32, errno: &mut i32) -> (r: isize)
    requires
        old(s).len() >= 4,
    ensures
        match utf8_encode(wc) {
            Some(bytes) => r == bytes.len() && final(s)@ == overwrite(old(s)@, bytes)
                && *final(errno) == *old(errno),
            None => r == ILLEGAL && final(s)@ == old(s)@ && *final(errno) == EILSEQ,
        },
{
    if wc < 0x80 {
        s[0] = wc as u8;
        1
    } else if wc < 0x800 {
        s[0] = (0xc0 + wc / 0x40) as u8;
        s[1] = (0x80 + wc % 0x40) as u8;
        2
    } else if wc < 0x10000 {
        if 0xd800 <= wc && wc <= 0xdfff {
            *errno = EILSEQ;
            return ILLEGAL;
        }
        s[0] = (0xe0 + wc / 0x1000) as u8;
        s[1] = (0x80 + wc / 0x40 % 0x40) as u8;
        s[2] = (0x80 + wc % 0x40) as u8;
        3
    } else if wc <= 0x10ffff {
        s[0] = (0xf0 + wc / 0x40000) as u8;
        s[1] = (0x80 + wc / 0x1000 % 0x40) as u8;
        s[2] = (0x80 + wc / 0x40 % 0x40) as u8;
        s[3] = (0x80 + wc % 0x40) as u8;
        4
    } else {
        *errno = EILSEQ;
        ILLEGAL
    }
}

} // verus!
