//! Error codes reported through the side channel of the C-shaped entry points.

use vstd::prelude::*;

verus! {

/// Out of memory.
pub const ENOMEM: i32 = 12;

/// Invalid argument.
pub const EINVAL: i32 = 22;

/// Result out of range.
pub const ERANGE: i32 = 34;

/// Illegal byte sequence.
pub const EILSEQ: i32 = 84;

} // verus!
