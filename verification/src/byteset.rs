//! A set of byte values over a fixed-size bit set.

use vstd::prelude::*;

verus! {

/// A set of the numbers below 256, held in a `cbitset::BitSet256`.
#[verifier::external_body]
pub struct ByteSet {
    bits: cbitset::BitSet256,
}

/// The numbers that `set` holds.
pub uninterp spec fn members(set: ByteSet) -> Set<int>;

/// Calls `BitSet256::new`, which returns the set with every bit off: it
/// holds no number.
#[verifier::external_body]
pub(crate) fn byteset_new() -> (set: ByteSet)
    ensures
        members(set) == Set::<int>::empty(),
{
    ByteSet { bits: cbitset::BitSet256::new() }
}

/// Calls `BitSet::insert`, which turns the bit `bit` on and leaves the
/// others as they are. It panics for a bit at or past the capacity, which is
/// 256 here.
#[verifier::external_body]
pub(crate) fn byteset_insert(set: &mut ByteSet, bit: usize)
    requires
        bit < 256,
    ensures
        members(*final(set)) == members(*old(set)).insert(bit as int),
{
    set.bits.insert(bit)
}

/// Calls `BitSet::contains`, which says whether the bit `bit` is on.
#[verifier::external_body]
pub(crate) fn byteset_contains(set: &ByteSet, bit: usize) -> (r: bool)
    requires
        bit < 256,
    ensures
        r == members(*set).contains(bit as int),
{
    set.bits.contains(bit)
}

} // verus!
