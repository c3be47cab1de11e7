//! Conversion between multibyte text and 16-bit or 32-bit code units.

use vstd::prelude::*;
use crate::errno::EILSEQ;
use crate::locale::ctype::utf8::{lemma_utf8_round_trip, utf8_encode};
use crate::locale::ctype::{overwrite, LocaleCtype, ILLEGAL, INCOMPLETE};
use crate::locale::{mbstate_get_surrogate, mbstate_set_init, mbstate_set_surrogate, MbState, ThreadContext};
use crate::stdlib::MB_LEN_MAX;

verus! {

/// Returned for an illegal sequence: `(size_t)-1`.
pub const MB_ILLEGAL: usize = usize::MAX;

/// Returned where more bytes are needed: `(size_t)-2`.
pub const MB_INCOMPLETE: usize = usize::MAX - 1;

/// Returned where a stored code unit was handed out and no byte was read:
/// `(size_t)-3`.
pub const MB_STORED: usize = usize::MAX - 2;

/// The number of input bytes that a call with return value `ret` used up.
pub open spec fn consumed(ret: usize) -> int {
    if ret == MB_ILLEGAL || ret == MB_INCOMPLETE || ret == MB_STORED {
        0
    } else {
        ret as int
    }
}

/// The first 16-bit unit of a code point above 0xffff.
pub open spec fn high_surrogate(c32: u32) -> u16 {
    (0xd800 | ((c32 - 0x10000) as u32 >> 10)) as u16
}

/// The second 16-bit unit of a code point above 0xffff.
pub open spec fn low_surrogate(c32: u32) -> u16 {
    (0xdc00 | ((c32 - 0x10000) as u32 & 0x3ff)) as u16
}

/// The code point that a pair of surrogates stands for.
pub open spec fn combine_surrogates(high: u16, low: u16) -> u32 {
    (0x10000 + (((high & 0x3ff) as u32) << 10 | (low & 0x3ff) as u32)) as u32
}

/// The halves of a code point above 0xffff are a high and a low surrogate,
/// and combine to the code point again.
pub proof fn lemma_surrogate_halves(c32: u32)
    requires
        0xffff < c32 <= 0x10ffff,
    ensures
        0xd800 <= high_surrogate(c32) <= 0xdbff,
        0xdc00 <= low_surrogate(c32) <= 0xdfff,
        combine_surrogates(high_surrogate(c32), low_surrogate(c32)) == c32,
{
    let v = (c32 - 0x10000) as u32;
    let h = 0xd800 | (v >> 10);
    let l = 0xdc00 | (v & 0x3ff);
    assert(0xd800 <= h <= 0xdbff && 0xdc00 <= l <= 0xdfff && 0x10000 + (((h as u16 & 0x3ff) as u32)
        << 10 | (l as u16 & 0x3ff) as u32) == v + 0x10000) by (bit_vector)
        requires
            v <= 0xfffff,
            h == 0xd800 | (v >> 10),
            l == 0xdc00 | (v & 0x3ff),
    ;
}

/// The text that a call reads: the bytes given, or the empty string, one
/// NUL byte, where the caller gave none.
pub open spec fn source(s: Option<Seq<u8>>) -> Seq<u8> {
    match s {
        Some(bytes) => bytes,
        None => seq![0u8],
    }
}

/// The return value that stands for the codec's `ret`.
pub open spec fn as_size(ret: int) -> usize {
    if ret == ILLEGAL {
        MB_ILLEGAL
    } else if ret == INCOMPLETE {
        MB_INCOMPLETE
    } else {
        ret as usize
    }
}

/// What a decoding call yields.
pub struct Decoded<U> {
    /// The return value.
    pub ret: usize,
    /// The code unit that is stored through the caller's pointer, if any.
    pub unit: Option<U>,
    /// An illegal sequence was met, and the error code is set.
    pub illegal: bool,
    /// The conversion state after the call.
    pub state: MbState,
}

/// What an encoding call yields.
pub struct Encoded {
    /// The return value.
    pub ret: usize,
    /// The bytes that are written to the head of the caller's buffer, if any.
    pub bytes: Option<Seq<u8>>,
    /// The unit has no encoding, and the error code is set.
    pub illegal: bool,
    /// The conversion state after the call.
    pub state: MbState,
}

/// Decoding to a 32-bit unit: one step of the codec, where a decoded NUL
/// reports length 0.
pub open spec fn mbrtoc32_model(ct: LocaleCtype, s: Option<Seq<u8>>, st: MbState) -> Decoded<u32> {
    let d = ct.decode(source(s), st);
    if d.ret >= 0 {
        Decoded {
            ret: if d.c32 == 0 {
                0
            } else {
                d.ret as usize
            },
            unit: Some(d.c32),
            illegal: false,
            state: d.state,
        }
    } else {
        Decoded { ret: as_size(d.ret), unit: None, illegal: d.ret == ILLEGAL, state: d.state }
    }
}

/// Decoding to a 16-bit unit. A pending surrogate is handed out first, with
/// no byte read. Else one step of the codec: a code point up to 0xffff is
/// its own unit; one above yields its high surrogate and leaves the low one
/// pending. Where the step needs more bytes, what it gathered stays in the
/// state for the next call.
pub open spec fn mbrtoc16_model(ct: LocaleCtype, s: Option<Seq<u8>>, st: MbState) -> Decoded<u16> {
    let d = ct.decode(source(s), st);
    if st.has_surrogate() {
        Decoded {
            ret: MB_STORED,
            unit: Some(st.surrogate),
            illegal: false,
            state: MbState::initial(),
        }
    } else if d.ret < 0 {
        Decoded { ret: as_size(d.ret), unit: None, illegal: d.ret == ILLEGAL, state: d.state }
    } else if d.c32 < 0x10000 {
        Decoded {
            ret: if d.c32 == 0 {
                0
            } else {
                d.ret as usize
            },
            unit: Some(d.c32 as u16),
            illegal: false,
            state: d.state,
        }
    } else {
        Decoded {
            ret: d.ret as usize,
            unit: Some(high_surrogate(d.c32)),
            illegal: false,
            state: MbState {
                surrogate: low_surrogate(d.c32),
                bytesleft: 0,
                partial: 0,
                lowerbound: 0,
            },
        }
    }
}

/// Encoding the code point `c32` from the state `st`.
pub open spec fn encode_model(ct: LocaleCtype, c32: u32, st: MbState) -> Encoded {
    match ct.encode(c32) {
        Some(bytes) => Encoded {
            ret: bytes.len() as usize,
            bytes: Some(bytes),
            illegal: false,
            state: MbState::initial(),
        },
        None => Encoded { ret: MB_ILLEGAL, bytes: None, illegal: true, state: st },
    }
}

/// Encoding a 32-bit unit: one step of the codec.
pub open spec fn c32rtomb_model(ct: LocaleCtype, c32: u32, st: MbState) -> Encoded {
    encode_model(ct, c32, st)
}

/// Encoding a 16-bit unit. With a surrogate pending the unit must be a low
/// surrogate, and the pair is encoded. Else a high surrogate is kept
/// pending and nothing is written, and any other unit is encoded as its own
/// code point.
pub open spec fn c16rtomb_model(ct: LocaleCtype, unit: u16, st: MbState) -> Encoded {
    if st.has_surrogate() {
        if 0xdc00 <= unit <= 0xdfff {
            encode_model(ct, combine_surrogates(st.surrogate, unit), st)
        } else {
            Encoded { ret: MB_ILLEGAL, bytes: None, illegal: true, state: st }
        }
    } else if 0xd800 <= unit <= 0xdbff {
        Encoded {
            ret: 0,
            bytes: None,
            illegal: false,
            state: MbState { surrogate: unit, bytesleft: 0, partial: 0, lowerbound: 0 },
        }
    } else {
        encode_model(ct, unit as u32, st)
    }
}

/// Surrogate pairing: decoding the UTF-8 bytes of a code point above 0xffff
/// to 16-bit units takes two calls on one state. The first reads all four
/// bytes and reports the high surrogate; the second, whatever it is given to
/// read, reads nothing and reports the low surrogate, and leaves the state
/// initial. The two units combine to the code point.
pub proof fn lemma_surrogate_pairing(c32: u32, rest: Seq<u8>, next: Option<Seq<u8>>)
    requires
        0xffff < c32 <= 0x10ffff,
    ensures
        ({
            let ct = LocaleCtype::utf8_spec();
            let first = mbrtoc16_model(
                ct,
                Some(utf8_encode(c32).unwrap() + rest),
                MbState::initial(),
            );
            let second = mbrtoc16_model(ct, next, first.state);
            &&& first.ret == 4
            &&& consumed(first.ret) == 4
            &&& first.unit == Some(high_surrogate(c32))
            &&& !first.illegal
            &&& 0xd800 <= high_surrogate(c32) <= 0xdbff
            &&& second.ret == MB_STORED
            &&& consumed(second.ret) == 0
            &&& second.unit == Some(low_surrogate(c32))
            &&& !second.illegal
            &&& 0xdc00 <= low_surrogate(c32) <= 0xdfff
            &&& second.state == MbState::initial()
            &&& combine_surrogates(high_surrogate(c32), low_surrogate(c32)) == c32
        }),
{
    lemma_utf8_round_trip(c32, rest);
    lemma_surrogate_halves(c32);
}

/// Reset at the end of a string: a decoding call that returns 0 has stored
/// the unit 0 and left the state initial, so that the next call on that
/// state starts afresh; and encoding the unit 0 with no surrogate pending
/// leaves the state initial as well.
pub proof fn lemma_end_of_string_resets(ct: LocaleCtype, s: Option<Seq<u8>>, st: MbState)
    requires
        !(ct.codec is Unset),
    ensures
        mbrtoc16_model(ct, s, st).ret == 0 ==> mbrtoc16_model(ct, s, st).state
            == MbState::initial() && mbrtoc16_model(ct, s, st).unit == Some(0u16),
        mbrtoc32_model(ct, s, st).ret == 0 ==> mbrtoc32_model(ct, s, st).state
            == MbState::initial() && mbrtoc32_model(ct, s, st).unit == Some(0u32),
        c32rtomb_model(ct, 0, st).state == MbState::initial(),
        !st.has_surrogate() ==> c16rtomb_model(ct, 0, st).state == MbState::initial(),
{
    ct.lemma_decode(source(s), st);
    let d = ct.decode(source(s), st);
    if d.ret >= 0 && d.c32 >= 0x10000 {
        lemma_surrogate_halves(d.c32);
    }
}

/// An unfinished sequence is kept: a decoding call that returns
/// `MB_INCOMPLETE` leaves in the state what it has read, so that the next
/// call on the bytes that follow comes to what one call on the whole text
/// comes to. It completes the same unit and counts the bytes of both calls,
/// or needs more bytes still, or meets the illegal byte. A call on no bytes
/// at all leaves the state as it is.
pub proof fn lemma_incomplete_is_resumed(ct: LocaleCtype, a: Seq<u8>, b: Seq<u8>, st: MbState)
    requires
        !(ct.codec is Unset),
        !st.has_surrogate(),
    ensures
        mbrtoc16_model(ct, Some(Seq::<u8>::empty()), st) == (Decoded::<u16> {
            ret: MB_INCOMPLETE,
            unit: None,
            illegal: false,
            state: st,
        }),
        mbrtoc32_model(ct, Some(Seq::<u8>::empty()), st) == (Decoded::<u32> {
            ret: MB_INCOMPLETE,
            unit: None,
            illegal: false,
            state: st,
        }),
        ({
            let first = mbrtoc16_model(ct, Some(a), st);
            let second = mbrtoc16_model(ct, Some(b), first.state);
            let whole = mbrtoc16_model(ct, Some(a + b), st);
            first.ret == MB_INCOMPLETE ==> {
                &&& !first.state.has_surrogate()
                &&& second.ret == MB_INCOMPLETE ==> whole == second
                &&& second.ret == MB_ILLEGAL ==> whole == (Decoded::<u16> {
                    ret: MB_ILLEGAL,
                    unit: None,
                    illegal: true,
                    state: st,
                })
                &&& second.ret != MB_INCOMPLETE && second.ret != MB_ILLEGAL ==> whole.unit
                    == second.unit && whole.state == second.state && !whole.illegal && whole.ret
                    == if second.ret == 0 {
                    0
                } else {
                    a.len() + second.ret
                }
            }
        }),
        ({
            let first = mbrtoc32_model(ct, Some(a), st);
            let second = mbrtoc32_model(ct, Some(b), first.state);
            let whole = mbrtoc32_model(ct, Some(a + b), st);
            first.ret == MB_INCOMPLETE ==> {
                &&& second.ret == MB_INCOMPLETE ==> whole == second
                &&& second.ret == MB_ILLEGAL ==> whole == (Decoded::<u32> {
                    ret: MB_ILLEGAL,
                    unit: None,
                    illegal: true,
                    state: st,
                })
                &&& second.ret != MB_INCOMPLETE && second.ret != MB_ILLEGAL ==> whole.unit
                    == second.unit && whole.state == second.state && !whole.illegal && whole.ret
                    == if second.ret == 0 {
                    0
                } else {
                    a.len() + second.ret
                }
            }
        }),
{
    let first = ct.decode(a, st);
    ct.lemma_decode(Seq::<u8>::empty(), st);
    ct.lemma_decode(a, st);
    ct.lemma_decode(b, first.state);
    ct.lemma_decode(a + b, st);
    ct.lemma_split_decode(a, b, st);
}

/// Every call keeps the state well formed: it never leaves a surrogate and
/// an unfinished sequence pending together.
pub proof fn lemma_state_stays_well_formed(
    ct: LocaleCtype,
    s: Option<Seq<u8>>,
    c16: u16,
    c32: u32,
    st: MbState,
)
    requires
        !(ct.codec is Unset),
        st.wf(),
    ensures
        mbrtoc16_model(ct, s, st).state.wf(),
        mbrtoc32_model(ct, s, st).state.wf(),
        c16rtomb_model(ct, c16, st).state.wf(),
        c32rtomb_model(ct, c32, st).state.wf(),
{
    ct.lemma_decode(source(s), st);
    let d = ct.decode(source(s), st);
    if d.ret >= 0 && d.c32 >= 0x10000 {
        lemma_surrogate_halves(d.c32);
    }
}

/// The optional bytes of a call as a sequence.
pub open spec fn view_of(s: Option<&[u8]>) -> Option<Seq<u8>> {
    match s {
        Some(bytes) => Some(bytes@),
        None => None,
    }
}

fn finish_encode(
    ctx: &mut ThreadContext,
    s: Option<&mut Vec<u8>>,
    c32: u32,
    ps: &mut MbState,
) -> (r: usize)
    requires
        !(old(ctx).locale.ctype.codec is Unset),
        s matches Some(dst) ==> dst@.len() >= old(ctx).locale.ctype.max_len(),
    ensures
        ({
            let m = encode_model(old(ctx).locale.ctype, c32, *old(ps));
            &&& r == m.ret
            &&& *final(ps) == m.state
            &&& final(ctx).locale == old(ctx).locale
            &&& final(ctx).strtok_last == old(ctx).strtok_last
            &&& final(ctx).errno == if m.illegal {
                EILSEQ
            } else {
                old(ctx).errno
            }
            &&& s matches Some(dst) ==> final(dst)@ == match m.bytes {
                Some(bytes) => overwrite(dst@, bytes),
                None => dst@,
            }
        }),
{
    let ct = ctx.locale.ctype;
    let l = match s {
        Some(dst) => ct.c32tomb(dst, c32, &mut ctx.errno),
        None => {
            let mut buf: Vec<u8> = vec![0u8; MB_LEN_MAX];
            ct.c32tomb(&mut buf, c32, &mut ctx.errno)
        },
    };
    if l >= 0 {
        mbstate_set_init(ps);
        l as usize
    } else {
        MB_ILLEGAL
    }
}

/// Converts the 16-bit unit `c16` to the bytes of the thread's locale.
/// Returns the number of bytes written, 0 where a high surrogate was kept
/// for the next call, or `MB_ILLEGAL` with the error code set. Without `s`
/// the conversion runs all the same, and the bytes are dropped.
pub fn ouma_c16rtomb(
    ctx: &mut ThreadContext,
    s: Option<&mut Vec<u8>>,
    c16: u16,
    ps: &mut MbState,
) -> (r: usize)
    requires
        !(old(ctx).locale.ctype.codec is Unset),
        s matches Some(dst) ==> dst@.len() >= old(ctx).locale.ctype.max_len(),
    ensures
        ({
            let m = c16rtomb_model(old(ctx).locale.ctype, c16, *old(ps));
            &&& r == m.ret
            &&& *final(ps) == m.state
            &&& final(ctx).locale == old(ctx).locale
            &&& final(ctx).strtok_last == old(ctx).strtok_last
            &&& final(ctx).errno == if m.illegal {
                EILSEQ
            } else {
                old(ctx).errno
            }
            &&& s matches Some(dst) ==> final(dst)@ == match m.bytes {
                Some(bytes) => overwrite(dst@, bytes),
                None => dst@,
            }
        }),
        old(ps).wf() ==> final(ps).wf(),
{
    let unit: u16 = c16;
    let mut c32: u32 = unit as u32;
    let mut pending: u16 = 0;
    if mbstate_get_surrogate(ps, &mut pending) {
        if unit < 0xdc00 || unit > 0xdfff {
            ctx.errno = EILSEQ;
            return MB_ILLEGAL;
        }
        let high: u32 = (pending & 0x3ff) as u32;
        let low: u32 = (unit & 0x3ff) as u32;
        assert(0x10000 + (high << 10 | low) <= 0x10ffff) by (bit_vector)
            requires
                high == (pending & 0x3ff) as u32,
                low == (unit & 0x3ff) as u32,
        ;
        c32 = 0x10000 + (high << 10 | low);
    } else if 0xd800 <= unit && unit <= 0xdbff {
        mbstate_set_surrogate(ps, unit);
        return 0;
    }
    finish_encode(ctx, s, c32, ps)
}

/// Converts the 32-bit unit `c32` to the bytes of the thread's locale.
/// Returns the number of bytes written, or `MB_ILLEGAL` with the error code
/// set. Without `s` the conversion runs all the same, and the bytes are
/// dropped.
pub fn ouma_c32rtomb(
    ctx: &mut ThreadContext,
    s: Option<&mut Vec<u8>>,
    c32: u32,
    ps: &mut MbState,
) -> (r: usize)
    requires
        !(old(ctx).locale.ctype.codec is Unset),
        s matches Some(dst) ==> dst@.len() >= old(ctx).locale.ctype.max_len(),
    ensures
        ({
            let m = c32rtomb_model(old(ctx).locale.ctype, c32, *old(ps));
            &&& r == m.ret
            &&& *final(ps) == m.state
            &&& final(ctx).locale == old(ctx).locale
            &&& final(ctx).strtok_last == old(ctx).strtok_last
            &&& final(ctx).errno == if m.illegal {
                EILSEQ
            } else {
                old(ctx).errno
            }
            &&& s matches Some(dst) ==> final(dst)@ == match m.bytes {
                Some(bytes) => overwrite(dst@, bytes),
                None => dst@,
            }
        }),
        old(ps).wf() ==> final(ps).wf(),
{
    finish_encode(ctx, s, c32, ps)
}

/// Converts the bytes at the head of `s` to one 16-bit unit. Returns the
/// number of bytes read, 0 for a decoded NUL, `MB_STORED` where a pending
/// surrogate was handed out, `MB_INCOMPLETE` with what was read kept in
/// `ps`, or `MB_ILLEGAL` with the error code set. No bytes at all are too
/// few, and leave `ps` as it is. Without `s` the call reads the empty
/// string.
pub fn ouma_mbrtoc16(
    ctx: &mut ThreadContext,
    pc16: Option<&mut u16>,
    s: Option<&[u8]>,
    ps: &mut MbState,
) -> (r: usize)
    requires
        !(old(ctx).locale.ctype.codec is Unset),
    ensures
        ({
            let m = mbrtoc16_model(old(ctx).locale.ctype, view_of(s), *old(ps));
            &&& r == m.ret
            &&& *final(ps) == m.state
            &&& final(ctx).locale == old(ctx).locale
            &&& final(ctx).strtok_last == old(ctx).strtok_last
            &&& final(ctx).errno == if m.illegal {
                EILSEQ
            } else {
                old(ctx).errno
            }
            &&& pc16 matches Some(out) ==> *final(out) == match m.unit {
                Some(unit) => unit,
                None => *out,
            }
        }),
        old(ps).wf() ==> final(ps).wf(),
        r == 0 ==> *final(ps) == MbState::initial(),
        view_of(s) == Some(Seq::<u8>::empty()) && !old(ps).has_surrogate() ==> r == MB_INCOMPLETE
            && *final(ps) == *old(ps),
{
    let ct = ctx.locale.ctype;
    let empty: Vec<u8> = vec![0u8];
    let src: &[u8] = match s {
        Some(bytes) => bytes,
        None => empty.as_slice(),
    };
    proof {
        ct.lemma_decode(src@, *ps);
    }
    let mut pending: u16 = 0;
    if mbstate_get_surrogate(ps, &mut pending) {
        mbstate_set_init(ps);
        match pc16 {
            Some(out) => {
                *out = pending;
            },
            None => {},
        }
        return MB_STORED;
    }
    let mut c32: u32 = 0;
    let l = ct.mbtoc32(&mut c32, src, ps, &mut ctx.errno);
    if l >= 0 {
        let mut unit: u16 = 0;
        if c32 < 0x10000 {
            unit = c32 as u16;
        } else {
            proof {
                lemma_surrogate_halves(c32);
            }
            let v: u32 = c32 - 0x10000;
            assert(0xd800 | (v >> 10) <= 0xdbff && 0xdc00 | (v & 0x3ff) <= 0xdfff) by (bit_vector)
                requires
                    v <= 0xfffff,
            ;
            unit = (0xd800 | (v >> 10)) as u16;
            mbstate_set_surrogate(ps, (0xdc00 | (v & 0x3ff)) as u16);
        }
        match pc16 {
            Some(out) => {
                *out = unit;
            },
            None => {},
        }
        if unit == 0 {
            return 0;
        }
        return l as usize;
    }
    if l == ILLEGAL {
        MB_ILLEGAL
    } else {
        MB_INCOMPLETE
    }
}

/// Converts the bytes at the head of `s` to one 32-bit unit. Returns the
/// number of bytes read, 0 for a decoded NUL, `MB_INCOMPLETE` with what was
/// read kept in `ps`, or `MB_ILLEGAL` with the error code set. No bytes at
/// all are too few, and leave `ps` as it is. Without `s` the call reads the
/// empty string.
pub fn ouma_mbrtoc32(
    ctx: &mut ThreadContext,
    pc32: Option<&mut u32>,
    s: Option<&[u8]>,
    ps: &mut MbState,
) -> (r: usize)
    requires
        !(old(ctx).locale.ctype.codec is Unset),
    ensures
        ({
            let m = mbrtoc32_model(old(ctx).locale.ctype, view_of(s), *old(ps));
            &&& r == m.ret
            &&& *final(ps) == m.state
            &&& final(ctx).locale == old(ctx).locale
            &&& final(ctx).strtok_last == old(ctx).strtok_last
            &&& final(ctx).errno == if m.illegal {
                EILSEQ
            } else {
                old(ctx).errno
            }
            &&& pc32 matches Some(out) ==> *final(out) == match m.unit {
                Some(unit) => unit,
                None => *out,
            }
        }),
        old(ps).wf() ==> final(ps).wf(),
        r == 0 ==> *final(ps) == MbState::initial(),
        view_of(s) == Some(Seq::<u8>::empty()) ==> r == MB_INCOMPLETE && *final(ps) == *old(ps),
{
    let ct = ctx.locale.ctype;
    let empty: Vec<u8> = vec![0u8];
    let src: &[u8] = match s {
        Some(bytes) => bytes,
        None => empty.as_slice(),
    };
    proof {
        ct.lemma_decode(src@, *ps);
    }
    let mut c32: u32 = 0;
    let l = ct.mbtoc32(&mut c32, src, ps, &mut ctx.errno);
    if l >= 0 {
        match pc32 {
            Some(out) => {
                *out = c32;
            },
            None => {},
        }
        if c32 == 0 {
            return 0;
        }
        return l as usize;
    }
    if l == ILLEGAL {
        MB_ILLEGAL
    } else {
        MB_INCOMPLETE
    }
}

} // verus!
