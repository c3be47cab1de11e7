//! The US-ASCII codec: one byte below 0x80 for each code point below 0x80.

use vstd::prelude::*;
use crate::errno::EILSEQ;
use crate::locale::ctype::{overwrite, Decoding, ILLEGAL, INCOMPLETE};
use crate::locale::{mbstate_set_init, MbState};

verus! {

/// One decode step: no byte is too few, a byte of 0x80 or more is illegal,
/// any other byte is its own code point.
pub open spec fn ascii_decode(s: Seq<u8>, st: MbState) -> Decoding {
    if s.len() == 0 {
        Decoding { ret: INCOMPLETE as int, c32: 0, state: st }
    } else if s[0] > 0x7f {
        Decoding { ret: ILLEGAL as int, c32: 0, state: st }
    } else {
        Decoding { ret: 1, c32: s[0] as u32, state: MbState::initial() }
    }
}

/// The byte of a code point below 0x80; no other code point has one.
pub open spec fn ascii_encode(c32: u32) -> Option<Seq<u8>> {
    if c32 > 0x7f {
        None
    } else {
        Some(seq![c32 as u8])
    }
}

/// Decodes one code point from the head of `s`: returns 1 and stores the
/// byte, or returns `INCOMPLETE` for no bytes, or returns `ILLEGAL` and sets
/// `errno` for a byte of 0x80 or more.
pub fn mbtoc32(pc32: &mut u32, s: &[u8], ps: &mut MbState, errno: &mut i32) -> (r: isize)
    ensures
        r == ascii_decode(s@, *old(ps)).ret,
        *final(ps) == ascii_decode(s@, *old(ps)).state,
        *final(pc32) == if r >= 0 {
            ascii_decode(s@, *old(ps)).c32
        } else {
            *old(pc32)
        },
        *final(errno) == if r == ILLEGAL {
            EILSEQ
        } else {
            *old(errno)
        },
        r == ILLEGAL || r == INCOMPLETE || (r == 1 && *final(pc32) <= 0x7f),
{
    if s.len() < 1 {
        return INCOMPLETE;
    }
    let uc: u8 = s[0];
    if uc > 0x7f {
        *errno = EILSEQ;
        return ILLEGAL;
    }
    *pc32 = uc as u32;
    mbstate_set_init(ps);
    1
}

/// Encodes `wc` into the head of `s`: writes one byte and returns 1, or
/// returns `ILLEGAL` and sets `errno` for a code point of 0x80 or more.
pub fn c32tomb(s: &mut Vec<u8>, wc: u32, errno: &mut i32) -> (r: isize)
    requires
        old(s).len() >= 1,
    ensures
        match ascii_encode(wc) {
            Some(bytes) => r == bytes.len() && final(s)@ == overwrite(old(s)@, bytes)
                && *final(errno) == *old(errno),
            None => r == ILLEGAL && final(s)@ == old(s)@ && *final(errno) == EILSEQ,
        },
{
    if wc > 0x7f {
        *errno = EILSEQ;
        return ILLEGAL;
    }
    s[0] = wc as u8;
    1
}

} // verus!
