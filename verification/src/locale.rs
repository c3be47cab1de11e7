//! Conversion state, locale descriptors and the per-thread context.

use vstd::prelude::*;
use crate::locale::ctype::LocaleCtype;

pub mod ctype;

verus! {

/// `unit` is a UTF-16 surrogate, of either half.
pub open spec fn is_surrogate(unit: int) -> bool {
    0xd800 <= unit <= 0xdfff
}

/// The state of a multibyte conversion that is carried from call to call.
#[derive(Clone, Copy, Debug, PartialEq, Eq, Structural)]
pub struct MbState {
    /// A surrogate that waits for its pair; any value that is no surrogate
    /// stands for none.
    pub surrogate: u16,
    /// The number of continuation bytes that the current sequence still needs.
    pub bytesleft: u32,
    /// The code point bits gathered so far.
    pub partial: u32,
    /// The least code point that the current sequence may encode.
    pub lowerbound: u32,
}

impl MbState {
    /// The initial state: nothing pending.
    pub open spec fn initial() -> MbState {
        MbState { surrogate: 0, bytesleft: 0, partial: 0, lowerbound: 0 }
    }

    /// A surrogate is pending.
    pub open spec fn has_surrogate(&self) -> bool {
        is_surrogate(self.surrogate as int)
    }

    /// Nothing is pending: the next call starts a fresh conversion.
    pub open spec fn is_initial(&self) -> bool {
        !self.has_surrogate() && self.bytesleft == 0
    }

    /// At most one of the two pending forms is present.
    pub open spec fn wf(&self) -> bool {
        !(self.has_surrogate() && self.bytesleft != 0)
    }

    /// The initial state.
    pub fn new() -> (r: MbState)
        ensures
            r == MbState::initial(),
    {
        MbState { surrogate: 0, bytesleft: 0, partial: 0, lowerbound: 0 }
    }
}

/// A locale: the tables that the conversion calls consult.
#[derive(Clone, Copy, Debug, PartialEq, Eq, Structural)]
pub struct LocaleStruct {
    pub ctype: LocaleCtype,
}

/// What a thread owns: its active locale, its error code, and the place
/// where its tokenizer goes on.
#[derive(Clone, Copy, Debug, PartialEq, Eq, Structural)]
pub struct ThreadContext {
    pub locale: LocaleStruct,
    pub errno: i32,
    pub strtok_last: Option<usize>,
}

impl ThreadContext {
    /// The context of a thread at its start: the UTF-8 locale, no error,
    /// no text being tokenized.
    pub fn new() -> (r: ThreadContext)
        ensures
            r == (ThreadContext {
                locale: LocaleStruct { ctype: LocaleCtype::utf8_spec() },
                errno: 0,
                strtok_last: None,
            }),
    {
        ThreadContext { locale: olocale_c_utf8(), errno: 0, strtok_last: None }
    }
}

/// The "C" locale over US-ASCII.
pub fn olocale_c() -> (r: LocaleStruct)
    ensures
        r == (LocaleStruct { ctype: LocaleCtype::ascii_spec() }),
{
    LocaleStruct { ctype: LocaleCtype::ascii() }
}

/// The "C" locale over UTF-8.
pub fn olocale_c_utf8() -> (r: LocaleStruct)
    ensures
        r == (LocaleStruct { ctype: LocaleCtype::utf8_spec() }),
{
    LocaleStruct { ctype: LocaleCtype::utf8() }
}

/// The thread's active locale.
pub fn get_thread_locale(ctx: &ThreadContext) -> (r: LocaleStruct)
    ensures
        r == ctx.locale,
{
    ctx.locale
}

/// Replaces the thread's active locale and leaves the rest of the
/// context as it is.
pub fn set_thread_locale(ctx: &mut ThreadContext, locale: &LocaleStruct)
    ensures
        *final(ctx) == (ThreadContext { locale: *locale, ..*old(ctx) }),
{
    ctx.locale = *locale;
}

/// Puts the state back to the initial state.
pub fn mbstate_set_init(mbs: &mut MbState)
    ensures
        *final(mbs) == MbState::initial(),
{
    *mbs = MbState::new();
}

/// Whether nothing is pending in the state.
pub fn mbstate_get_init(mbs: &MbState) -> (r: bool)
    ensures
        r == mbs.is_initial(),
{
    (mbs.surrogate < 0xd800 || mbs.surrogate > 0xdfff) && mbs.bytesleft == 0
}

/// Records an unfinished multibyte sequence. A pending surrogate is dropped,
/// so that the state holds one pending form at most.
pub fn mbstate_set_multibyte(mbs: &mut MbState, bytesleft: u32, partial: u32, lowerbound: u32)
    ensures
        *final(mbs) == (MbState { surrogate: 0, bytesleft, partial, lowerbound }),
        final(mbs).wf(),
{
    *mbs = MbState { surrogate: 0, bytesleft, partial, lowerbound };
}

/// Reads the unfinished multibyte sequence out of the state.
pub fn mbstate_get_multibyte(
    mbs: &MbState,
    bytesleft: &mut u32,
    partial: &mut u32,
    lowerbound: &mut u32,
)
    ensures
        *final(bytesleft) == mbs.bytesleft,
        *final(partial) == mbs.partial,
        *final(lowerbound) == mbs.lowerbound,
{
    *bytesleft = mbs.bytesleft;
    *partial = mbs.partial;
    *lowerbound = mbs.lowerbound;
}

/// Records a pending surrogate. An unfinished multibyte sequence is dropped,
/// so that the state holds one pending form at most.
pub fn mbstate_set_surrogate(mbs: &mut MbState, surrogate: u16)
    requires
        is_surrogate(surrogate as int),
    ensures
        *final(mbs) == (MbState { surrogate, bytesleft: 0, partial: 0, lowerbound: 0 }),
        final(mbs).wf(),
        final(mbs).has_surrogate(),
{
    *mbs = MbState { surrogate, bytesleft: 0, partial: 0, lowerbound: 0 };
}

/// Reads the pending surrogate out of the state, where there is one, and
/// says whether there is.
pub fn mbstate_get_surrogate(mbs: &MbState, surrogate: &mut u16) -> (r: bool)
    ensures
        r == mbs.has_surrogate(),
        *final(surrogate) == if r {
            mbs.surrogate
        } else {
            *old(surrogate)
        },
{
    if mbs.surrogate < 0xd800 || mbs.surrogate > 0xdfff {
        return false;
    }
    *surrogate = mbs.surrogate;
    true
}

} // verus!
