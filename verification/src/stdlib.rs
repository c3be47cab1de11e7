//! Memory allocation requests and the multibyte length limits.
//!
//! The functions here decide what is asked of the raw allocator and which
//! error is reported; the caller owns the memory and makes the request.

use vstd::prelude::*;
use crate::errno::{EINVAL, ENOMEM};
use crate::locale::ThreadContext;

verus! {

/// The greatest number of bytes in a multibyte character of any locale.
pub const MB_LEN_MAX: usize = 16;

/// The alignment of every block that is requested without one: the greatest
/// alignment of a scalar type.
pub const MAX_ALIGN: usize = 16;

/// The greatest number of bytes in a multibyte character of the thread's
/// locale.
pub fn __oumalibc_get_mb_cur_max(ctx: &ThreadContext) -> (r: usize)
    ensures
        r == ctx.locale.ctype.max_len(),
{
    ctx.locale.ctype.mb_cur_max() as usize
}

/// `n` is 1, 2, 4, 8, ...
pub open spec fn is_power_of_two(n: int) -> bool
    decreases n,
{
    n == 1 || (n > 1 && n % 2 == 0 && is_power_of_two(n / 2))
}

/// The size of a pointer in bytes.
pub open spec fn pointer_width() -> int {
    usize::BITS as int / 8
}

/// A block of `size` bytes aligned to `align` can be described: `align` is
/// a power of two, and `size` rounded up to a multiple of `align` does not
/// exceed `isize::MAX`.
pub open spec fn valid_layout(size: usize, align: usize) -> bool {
    is_power_of_two(align as int) && size + align - 1 <= isize::MAX
}

/// 16 and the pointer width are powers of two.
pub proof fn lemma_known_alignments()
    ensures
        is_power_of_two(MAX_ALIGN as int),
        is_power_of_two(pointer_width()),
        forall|size: usize| valid_layout(size, MAX_ALIGN) <==> size <= isize::MAX - 15,
{
    reveal_with_fuel(is_power_of_two, 6);
}

/// The size and alignment of a block of memory.
#[derive(Clone, Copy, Debug, PartialEq, Eq, Structural)]
pub struct AllocationLayout {
    pub size: usize,
    pub align: usize,
}

impl AllocationLayout {
    /// The pair describes a block: see `valid_layout`.
    pub open spec fn wf(&self) -> bool {
        valid_layout(self.size, self.align)
    }

    /// The layout of `size` bytes aligned to `align`, where there is one.
    pub fn from_size_align(size: usize, align: usize) -> (r: Option<AllocationLayout>)
        ensures
            r == if valid_layout(size, align) {
                Some(AllocationLayout { size, align })
            } else {
                None
            },
    {
        if !power_of_two(align) {
            return None;
        }
        let most: usize = isize::MAX as usize;
        if align - 1 > most || size > most - (align - 1) {
            return None;
        }
        Some(AllocationLayout { size, align })
    }

    /// The layout of one pointer.
    pub fn of_pointer() -> (r: AllocationLayout)
        ensures
            r.size == pointer_width(),
            r.align == pointer_width(),
            r.wf(),
    {
        proof {
            lemma_known_alignments();
        }
        let width: usize = (usize::BITS / 8) as usize;
        AllocationLayout { size: width, align: width }
    }
}

/// Whether `n` is a power of two.
pub fn power_of_two(n: usize) -> (r: bool)
    ensures
        r == is_power_of_two(n as int),
{
    if n == 0 {
        return false;
    }
    let mut m: usize = n;
    while m % 2 == 0
        invariant
            1 <= m <= n,
            is_power_of_two(m as int) == is_power_of_two(n as int),
        decreases m,
    {
        m = m / 2;
    }
    m == 1
}

/// A request to the raw allocator.
#[derive(Clone, Copy, Debug, PartialEq, Eq, Structural)]
pub struct AllocationRequest {
    /// The block to ask for.
    pub layout: AllocationLayout,
    /// The block must come filled with zero bytes.
    pub zeroed: bool,
}

/// The request that stands for `size` bytes aligned to `align`: a size of 0
/// counts as 1; `None` where no block can be described.
pub open spec fn request_for(size: usize, align: usize, zeroed: bool) -> Option<AllocationRequest> {
    let wanted: usize = if size == 0 {
        1
    } else {
        size
    };
    if valid_layout(wanted, align) {
        Some(AllocationRequest { layout: AllocationLayout { size: wanted, align }, zeroed })
    } else {
        None
    }
}

fn request(ctx: &mut ThreadContext, size: usize, align: usize, zeroed: bool) -> (r: Option<
    AllocationRequest,
>)
    ensures
        r == request_for(size, align, zeroed),
        final(ctx).locale == old(ctx).locale,
        final(ctx).strtok_last == old(ctx).strtok_last,
        final(ctx).errno == if r is None {
            ENOMEM
        } else {
            old(ctx).errno
        },
{
    let wanted: usize = if size == 0 {
        1
    } else {
        size
    };
    match AllocationLayout::from_size_align(wanted, align) {
        Some(layout) => Some(AllocationRequest { layout, zeroed }),
        None => {
            ctx.errno = ENOMEM;
            None
        },
    }
}

/// Plans `malloc(size)`: a request for at least one byte at `MAX_ALIGN`, or
/// `None` with out-of-memory set, in which case the caller returns null
/// without asking the raw allocator.
pub fn ouma_malloc(ctx: &mut ThreadContext, size: usize) -> (r: Option<AllocationRequest>)
    ensures
        r == request_for(size, MAX_ALIGN, false),
        r is Some <==> size <= isize::MAX - 15,
        r matches Some(q) ==> q.layout.size >= 1 && q.layout.wf(),
        final(ctx).locale == old(ctx).locale,
        final(ctx).strtok_last == old(ctx).strtok_last,
        final(ctx).errno == if r is None {
            ENOMEM
        } else {
            old(ctx).errno
        },
{
    proof {
        lemma_known_alignments();
    }
    request(ctx, size, MAX_ALIGN, false)
}

/// Plans `aligned_alloc(alignment, size)`: as `ouma_malloc`, at the
/// caller's alignment.
pub fn ouma_aligned_alloc(ctx: &mut ThreadContext, alignment: usize, size: usize) -> (r: Option<
    AllocationRequest,
>)
    ensures
        r == request_for(size, alignment, false),
        r matches Some(q) ==> q.layout.size >= 1 && q.layout.wf(),
        final(ctx).locale == old(ctx).locale,
        final(ctx).strtok_last == old(ctx).strtok_last,
        final(ctx).errno == if r is None {
            ENOMEM
        } else {
            old(ctx).errno
        },
{
    request(ctx, size, alignment, false)
}

/// The request that stands for `nmemb` members of `size` bytes: `None`
/// where the product does not fit `usize`, else the zeroed request for the
/// product at `MAX_ALIGN`.
pub open spec fn calloc_request(nmemb: usize, size: usize) -> Option<AllocationRequest> {
    if nmemb * size > usize::MAX {
        None
    } else {
        request_for((nmemb * size) as usize, MAX_ALIGN, true)
    }
}

/// Plans `calloc(nmemb, size)`: a request for zeroed memory, or `None`
/// with out-of-memory set, in which case the caller returns null without
/// asking the raw allocator.
pub fn ouma_calloc(ctx: &mut ThreadContext, nmemb: usize, size: usize) -> (r: Option<
    AllocationRequest,
>)
    ensures
        r == calloc_request(nmemb, size),
        r matches Some(q) ==> q.layout.size >= 1 && q.layout.wf() && q.zeroed,
        final(ctx).locale == old(ctx).locale,
        final(ctx).strtok_last == old(ctx).strtok_last,
        final(ctx).errno == if r is None {
            ENOMEM
        } else {
            old(ctx).errno
        },
{
    match nmemb.checked_mul(size) {
        Some(total) => request(ctx, total, MAX_ALIGN, true),
        None => {
            ctx.errno = ENOMEM;
            None
        },
    }
}

/// What `realloc` asks of the raw allocator.
#[derive(Clone, Copy, Debug, PartialEq, Eq, Structural)]
pub enum Reallocation {
    /// There is no block yet: allocate one.
    Fresh(AllocationRequest),
    /// Resize the block, which is taken to have been allocated with
    /// `layout.align`, to `new_size` bytes.
    Resize { layout: AllocationLayout, new_size: usize },
}

/// The plan of `realloc`: with no block it is that of `malloc`; with one,
/// the block is resized to `size` bytes as it stands, at `MAX_ALIGN`.
pub open spec fn realloc_plan(has_block: bool, size: usize) -> Option<Reallocation> {
    if !has_block {
        match request_for(size, MAX_ALIGN, false) {
            Some(q) => Some(Reallocation::Fresh(q)),
            None => None,
        }
    } else if valid_layout(size, MAX_ALIGN) {
        Some(
            Reallocation::Resize {
                layout: AllocationLayout { size, align: MAX_ALIGN },
                new_size: size,
            },
        )
    } else {
        None
    }
}

/// Plans `realloc(ptr, size)`, where `has_block` says that `ptr` is not
/// null: what to ask of the raw allocator, or `None` with out-of-memory
/// set.
pub fn ouma_realloc(ctx: &mut ThreadContext, has_block: bool, size: usize) -> (r: Option<
    Reallocation,
>)
    ensures
        r == realloc_plan(has_block, size),
        r is Some <==> size <= isize::MAX - 15,
        final(ctx).locale == old(ctx).locale,
        final(ctx).strtok_last == old(ctx).strtok_last,
        final(ctx).errno == if r is None {
            ENOMEM
        } else {
            old(ctx).errno
        },
{
    proof {
        lemma_known_alignments();
    }
    if !has_block {
        return match ouma_malloc(ctx, size) {
            Some(q) => Some(Reallocation::Fresh(q)),
            None => None,
        };
    }
    match AllocationLayout::from_size_align(size, MAX_ALIGN) {
        Some(layout) => Some(Reallocation::Resize { layout, new_size: size }),
        None => {
            ctx.errno = ENOMEM;
            None
        },
    }
}

/// `alignment` is a power of two and a multiple of the pointer width.
pub open spec fn memalign_accepts(alignment: usize) -> bool {
    is_power_of_two(alignment as int) && alignment as int % pointer_width() == 0
}

/// What `posix_memalign` is to do.
#[derive(Clone, Copy, Debug, PartialEq, Eq, Structural)]
pub enum Memalign {
    /// Return `code` and leave the caller's pointer untouched.
    Reject { code: i32 },
    /// Store null through the caller's pointer and return 0: no block of
    /// that size can be described, and out-of-memory is set.
    Null,
    /// Ask the raw allocator, store its answer through the caller's
    /// pointer and return 0.
    Allocate(AllocationRequest),
}

/// The plan of `posix_memalign`: a bad alignment is rejected as an invalid
/// argument before anything else; otherwise the plan is that of
/// `aligned_alloc`.
pub open spec fn memalign_plan(alignment: usize, size: usize) -> Memalign {
    if !memalign_accepts(alignment) {
        Memalign::Reject { code: EINVAL }
    } else {
        match request_for(size, alignment, false) {
            Some(q) => Memalign::Allocate(q),
            None => Memalign::Null,
        }
    }
}

/// Plans `posix_memalign(out, alignment, size)`.
pub fn ouma_posix_memalign(ctx: &mut ThreadContext, alignment: usize, size: usize) -> (r: Memalign)
    ensures
        r == memalign_plan(alignment, size),
        r is Reject <==> !memalign_accepts(alignment),
        r matches Memalign::Allocate(q) ==> q.layout.size >= 1 && q.layout.wf() && q.layout.align
            == alignment,
        final(ctx).locale == old(ctx).locale,
        final(ctx).strtok_last == old(ctx).strtok_last,
        final(ctx).errno == if r is Null {
            ENOMEM
        } else {
            old(ctx).errno
        },
{
    let width: usize = (usize::BITS / 8) as usize;
    if !(power_of_two(alignment) && alignment % width == 0) {
        return Memalign::Reject { code: EINVAL };
    }
    match ouma_aligned_alloc(ctx, alignment, size) {
        Some(q) => Memalign::Allocate(q),
        None => Memalign::Null,
    }
}

/// Takes the raw allocator's answer to a request, an address or 0 for
/// null: the answer is what the caller returns, and a null answer sets
/// out-of-memory.
pub fn ouma_allocated(ctx: &mut ThreadContext, address: usize) -> (r: usize)
    ensures
        r == address,
        final(ctx).locale == old(ctx).locale,
        final(ctx).strtok_last == old(ctx).strtok_last,
        final(ctx).errno == if address == 0 {
            ENOMEM
        } else {
            old(ctx).errno
        },
{
    if address == 0 {
        ctx.errno = ENOMEM;
    }
    address
}

/// Plans `free(ptr)`, where `has_block` says that `ptr` is not null: the
/// layout to release the block with, that of one pointer, or `None` where
/// there is nothing to do.
pub fn ouma_free(has_block: bool) -> (r: Option<AllocationLayout>)
    ensures
        r is Some <==> has_block,
        r matches Some(layout) ==> layout.size == pointer_width() && layout.align
            == pointer_width() && layout.wf(),
{
    if !has_block {
        return None;
    }
    Some(AllocationLayout::of_pointer())
}

/// Plans `free_sized(ptr, size)`: the layout to release the block with,
/// `size` bytes at `MAX_ALIGN`, or `None` where there is nothing to do. A
/// size that no block can have is the caller's fault.
pub fn ouma_free_sized(has_block: bool, size: usize) -> (r: Option<AllocationLayout>)
    requires
        has_block ==> valid_layout(size, MAX_ALIGN),
    ensures
        r == if has_block {
            Some(AllocationLayout { size, align: MAX_ALIGN })
        } else {
            None
        },
{
    if !has_block {
        return None;
    }
    AllocationLayout::from_size_align(size, MAX_ALIGN)
}

/// Plans `free_aligned_sized(ptr, alignment, size)`: the layout to release
/// the block with, or `None` where there is nothing to do. A size and
/// alignment that no block can have are the caller's fault.
pub fn free_aligned_sized(has_block: bool, alignment: usize, size: usize) -> (r: Option<
    AllocationLayout,
>)
    requires
        has_block ==> valid_layout(size, alignment),
    ensures
        r == if has_block {
            Some(AllocationLayout { size, align: alignment })
        } else {
            None
        },
{
    if !has_block {
        return None;
    }
    AllocationLayout::from_size_align(size, alignment)
}

} // verus!
