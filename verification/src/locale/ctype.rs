//! The codec of a locale: how its bytes and code points convert.

use vstd::prelude::*;
use crate::locale::MbState;

pub mod ascii;
pub mod utf8;

verus! {

/// The return value of a decode that met an illegal sequence.
pub const ILLEGAL: isize = -1;

/// The return value of a decode that needs more bytes.
pub const INCOMPLETE: isize = -2;

/// What one decode step yields.
pub struct Decoding {
    /// The number of bytes read to complete a code point, or `ILLEGAL`, or
    /// `INCOMPLETE`.
    pub ret: int,
    /// The code point, where one was completed.
    pub c32: u32,
    /// The conversion state after the step.
    pub state: MbState,
}

/// `buf` with its first bytes replaced by `bytes`.
pub open spec fn overwrite(buf: Seq<u8>, bytes: Seq<u8>) -> Seq<u8> {
    bytes + buf.subrange(bytes.len() as int, buf.len() as int)
}

/// The encodings that ship with the library.
#[derive(Clone, Copy, Debug, PartialEq, Eq, Structural)]
pub enum Codec {
    /// No encoding: a descriptor that was made and never filled in.
    Unset,
    /// US-ASCII.
    Ascii,
    /// UTF-8.
    Utf8,
}

/// The character-encoding part of a locale.
#[derive(Clone, Copy, Debug, PartialEq, Eq, Structural)]
pub struct LocaleCtype {
    pub codec: Codec,
}

impl LocaleCtype {
    /// The descriptor of US-ASCII.
    pub open spec fn ascii_spec() -> LocaleCtype {
        LocaleCtype { codec: Codec::Ascii }
    }

    /// The descriptor of UTF-8.
    pub open spec fn utf8_spec() -> LocaleCtype {
        LocaleCtype { codec: Codec::Utf8 }
    }

    /// The greatest number of bytes that one code point encodes to.
    pub open spec fn max_len(&self) -> int {
        match self.codec {
            Codec::Unset => 0,
            Codec::Ascii => 1,
            Codec::Utf8 => 4,
        }
    }

    /// One decode step over `s` from the state `st`. A descriptor without
    /// an encoding finds every sequence illegal.
    pub open spec fn decode(&self, s: Seq<u8>, st: MbState) -> Decoding {
        match self.codec {
            Codec::Unset => Decoding { ret: ILLEGAL as int, c32: 0, state: st },
            Codec::Ascii => ascii::ascii_decode(s, st),
            Codec::Utf8 => utf8::utf8_decode(s, st),
        }
    }

    /// The bytes of `c32`, or `None` where the encoding has none for it. A
    /// descriptor without an encoding has bytes for no code point.
    pub open spec fn encode(&self, c32: u32) -> Option<Seq<u8>> {
        match self.codec {
            Codec::Unset => None,
            Codec::Ascii => ascii::ascii_encode(c32),
            Codec::Utf8 => utf8::utf8_encode(c32),
        }
    }

    /// What one decode step can come to: an illegal sequence with the state
    /// untouched, an unfinished sequence with the state untouched or holding
    /// the sequence alone, or a scalar value read from at most `max_len`
    /// bytes with the state back at the start.
    pub proof fn lemma_decode(&self, s: Seq<u8>, st: MbState)
        ensures
            ({
                let d = self.decode(s, st);
                ||| d.ret == ILLEGAL && d.state == st
                ||| d.ret == INCOMPLETE && (d.state == st || (d.state.bytesleft != 0
                    && !d.state.has_surrogate()))
                ||| 1 <= d.ret <= self.max_len() && d.ret <= s.len() && utf8::is_scalar(
                    d.c32 as int,
                ) && d.state == MbState::initial()
            }),
    {
        if self.codec is Utf8 {
            utf8::lemma_utf8_decode(s, st);
        }
    }

    /// Round trip: for every code point that the encoding has bytes for,
    /// decoding those bytes from the initial state reads all of them and
    /// gives the code point back, and encoding what was decoded gives the
    /// same bytes again. Whatever follows the bytes is left unread.
    pub proof fn lemma_round_trip(&self, c32: u32, rest: Seq<u8>)
        requires
            self.encode(c32) is Some,
        ensures
            ({
                let bytes = self.encode(c32).unwrap();
                let d = self.decode(bytes + rest, MbState::initial());
                &&& 1 <= bytes.len() <= self.max_len()
                &&& d.ret == bytes.len()
                &&& d.c32 == c32
                &&& d.state == MbState::initial()
                &&& self.encode(d.c32) == Some(bytes)
            }),
    {
        if self.codec is Utf8 {
            utf8::lemma_utf8_round_trip(c32, rest);
        }
    }

    /// Suspension and resumption: decoding a text in two calls, the second
    /// on the state that the first left, comes to what decoding it in one
    /// call comes to. Where the first part decides the outcome, what
    /// follows it changes nothing; where it runs out, the second call
    /// completes the code point, runs out in its turn, or meets the illegal
    /// byte, as the one call does.
    pub proof fn lemma_split_decode(&self, a: Seq<u8>, b: Seq<u8>, st: MbState)
        ensures
            ({
                let first = self.decode(a, st);
                let second = self.decode(b, first.state);
                let whole = self.decode(a + b, st);
                if first.ret != INCOMPLETE {
                    whole == first
                } else {
                    &&& second.ret >= 0 ==> whole == (Decoding {
                        ret: a.len() + second.ret,
                        c32: second.c32,
                        state: second.state,
                    })
                    &&& second.ret == INCOMPLETE ==> whole == second
                    &&& second.ret == ILLEGAL ==> whole == (Decoding {
                        ret: ILLEGAL as int,
                        c32: 0,
                        state: st,
                    })
                }
            }),
    {
        if self.codec is Utf8 {
            utf8::lemma_utf8_split(a, b, st);
        } else if a.len() == 0 {
            assert(a + b =~= b);
        } else {
            assert((a + b)[0] == a[0]);
        }
    }

    /// Only one form is read: the bytes that a decode from the initial
    /// state reads are the bytes that the code point encodes to.
    pub proof fn lemma_canonical(&self, s: Seq<u8>)
        requires
            self.decode(s, MbState::initial()).ret >= 0,
        ensures
            ({
                let d = self.decode(s, MbState::initial());
                &&& 1 <= d.ret <= s.len()
                &&& self.encode(d.c32) == Some(s.subrange(0, d.ret))
            }),
    {
        if self.codec is Utf8 {
            utf8::lemma_utf8_canonical(s);
        } else {
            let d = self.decode(s, MbState::initial());
            assert(self.encode(d.c32).unwrap() =~= s.subrange(0, d.ret));
        }
    }

    /// A descriptor with no encoding in it.
    pub fn new() -> (r: LocaleCtype)
        ensures
            r.codec is Unset,
    {
        LocaleCtype { codec: Codec::Unset }
    }

    /// The descriptor of US-ASCII.
    pub fn ascii() -> (r: LocaleCtype)
        ensures
            r == LocaleCtype::ascii_spec(),
    {
        LocaleCtype { codec: Codec::Ascii }
    }

    /// The descriptor of UTF-8.
    pub fn utf8() -> (r: LocaleCtype)
        ensures
            r == LocaleCtype::utf8_spec(),
    {
        LocaleCtype { codec: Codec::Utf8 }
    }

    /// A mutable handle on the descriptor itself.
    pub fn as_ptr(&mut self) -> (r: &mut LocaleCtype)
        ensures
            *r == *old(self),
            *final(self) == *final(r),
    {
        self
    }

    /// The name of the encoding, or `None` for a descriptor without one.
    pub fn codeset(&self) -> (r: Option<&'static str>)
        ensures
            r is None <==> self.codec is Unset,
            self.codec is Ascii ==> r == Some("US-ASCII"),
            self.codec is Utf8 ==> r == Some("UTF-8"),
    {
        match self.codec {
            Codec::Unset => None,
            Codec::Ascii => Some("US-ASCII"),
            Codec::Utf8 => Some("UTF-8"),
        }
    }

    /// The greatest number of bytes that one code point encodes to.
    pub fn mb_cur_max(&self) -> (r: i32)
        ensures
            r == self.max_len(),
    {
        match self.codec {
            Codec::Unset => 0,
            Codec::Ascii => 1,
            Codec::Utf8 => 4,
        }
    }

    /// Decodes one code point from the head of `s`. Returns the number of
    /// bytes read and stores the code point, or returns `INCOMPLETE` and
    /// keeps what was read in `ps`, or returns `ILLEGAL`, sets `errno` and
    /// leaves `ps` as it was.
    pub fn mbtoc32(&self, pc32: &mut u32, s: &[u8], ps: &mut MbState, errno: &mut i32) -> (r:
        isize)
        requires
            !(self.codec is Unset),
        ensures
            r == self.decode(s@, *old(ps)).ret,
            *final(ps) == self.decode(s@, *old(ps)).state,
            *final(pc32) == if r >= 0 {
                self.decode(s@, *old(ps)).c32
            } else {
                *old(pc32)
            },
            *final(errno) == if r == ILLEGAL {
                crate::errno::EILSEQ
            } else {
                *old(errno)
            },
            r == ILLEGAL || r == INCOMPLETE || (1 <= r <= self.max_len() && utf8::is_scalar(
                *final(pc32) as int,
            )),
    {
        match self.codec {
            Codec::Utf8 => utf8::mbtoc32(pc32, s, ps, errno),
            _ => ascii::mbtoc32(pc32, s, ps, errno),
        }
    }

    /// Encodes `wc` into the head of `s`. Returns the number of bytes
    /// written, or `ILLEGAL` with `errno` set and `s` as it was.
    pub fn c32tomb(&self, s: &mut Vec<u8>, wc: u32, errno: &mut i32) -> (r: isize)
        requires
            !(self.codec is Unset),
            old(s).len() >= self.max_len(),
        ensures
            match self.encode(wc) {
                Some(bytes) => r == bytes.len() && final(s)@ == overwrite(old(s)@, bytes)
                    && *final(errno) == *old(errno),
                None => r == ILLEGAL && final(s)@ == old(s)@ && *final(errno)
                    == crate::errno::EILSEQ,
            },
            r == ILLEGAL || 1 <= r <= self.max_len(),
    {
        match self.codec {
            Codec::Utf8 => utf8::c32tomb(s, wc, errno),
            _ => ascii::c32tomb(s, wc, errno),
        }
    }
}

impl Default for LocaleCtype {
    fn default() -> (r: LocaleCtype)
        ensures
            r.codec is Unset,
    {
        LocaleCtype::new()
    }
}

} // verus!
