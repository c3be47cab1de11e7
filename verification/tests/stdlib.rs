use oumalibc::errno::{EINVAL, ENOMEM};
use oumalibc::locale::ThreadContext;
use oumalibc::stdlib::{
    free_aligned_sized, ouma_aligned_alloc, ouma_allocated, ouma_calloc, ouma_free,
    ouma_free_sized, ouma_malloc, ouma_posix_memalign, ouma_realloc, power_of_two,
    AllocationLayout, AllocationRequest, Memalign, Reallocation, MAX_ALIGN,
};

const POINTER: usize = std::mem::size_of::<usize>();
const MOST: usize = isize::MAX as usize;

fn request(size: usize, align: usize, zeroed: bool) -> Option<AllocationRequest> {
    Some(AllocationRequest { layout: AllocationLayout { size, align }, zeroed })
}

#[test]
fn powers_of_two() {
    assert!(!power_of_two(0));
    assert!(power_of_two(1));
    assert!(power_of_two(2));
    assert!(!power_of_two(3));
    assert!(power_of_two(4096));
    assert!(!power_of_two(4097));
    assert!(power_of_two(MOST + 1));
    assert!(!power_of_two(usize::MAX));
    for n in 0usize..5000 {
        assert_eq!(power_of_two(n), n.is_power_of_two());
    }
}

#[test]
fn layouts_follow_the_standard_library() {
    let cases = [
        (0usize, 1usize),
        (1, 0),
        (1, 3),
        (16, 8),
        (MOST, 1),
        (MOST, 2),
        (MOST - 7, 8),
        (MOST - 6, 8),
        (0, MOST + 1),
        (1, MOST + 1),
        (usize::MAX, 1),
    ];
    for (size, align) in cases {
        let ours = AllocationLayout::from_size_align(size, align);
        let theirs = std::alloc::Layout::from_size_align(size, align);
        assert_eq!(ours.is_some(), theirs.is_ok());
        if let Some(layout) = ours {
            assert_eq!(layout, AllocationLayout { size, align });
        }
    }
    assert_eq!(AllocationLayout::of_pointer(), AllocationLayout { size: POINTER, align: POINTER });
}

#[test]
fn malloc_of_nothing_asks_for_one_byte() {
    let mut ctx = ThreadContext::new();
    assert_eq!(MAX_ALIGN, 16);
    assert_eq!(ouma_malloc(&mut ctx, 0), request(1, 16, false));
    assert_eq!(ouma_malloc(&mut ctx, 1), request(1, 16, false));
    assert_eq!(ouma_malloc(&mut ctx, 4096), request(4096, 16, false));
    assert_eq!(ouma_malloc(&mut ctx, MOST - 15), request(MOST - 15, 16, false));
    assert_eq!(ctx.errno, 0);
    assert_eq!(ouma_free(true), Some(AllocationLayout { size: POINTER, align: POINTER }));
}

#[test]
fn malloc_of_too_much_is_out_of_memory() {
    let mut ctx = ThreadContext::new();
    assert_eq!(ouma_malloc(&mut ctx, MOST - 14), None);
    assert_eq!(ctx.errno, ENOMEM);
    ctx.errno = 0;
    assert_eq!(ouma_malloc(&mut ctx, usize::MAX), None);
    assert_eq!(ctx.errno, ENOMEM);
}

#[test]
fn aligned_alloc_takes_the_callers_alignment() {
    let mut ctx = ThreadContext::new();
    assert_eq!(ouma_aligned_alloc(&mut ctx, 64, 0), request(1, 64, false));
    assert_eq!(ouma_aligned_alloc(&mut ctx, 1, 10), request(10, 1, false));
    assert_eq!(ctx.errno, 0);
    assert_eq!(ouma_aligned_alloc(&mut ctx, 3, 10), None);
    assert_eq!(ctx.errno, ENOMEM);
    ctx.errno = 0;
    assert_eq!(ouma_aligned_alloc(&mut ctx, 0, 10), None);
    assert_eq!(ctx.errno, ENOMEM);
}

#[test]
fn calloc_overflow_is_out_of_memory() {
    let mut ctx = ThreadContext::new();
    assert_eq!(ouma_calloc(&mut ctx, usize::MAX, 2), None);
    assert_eq!(ctx.errno, ENOMEM);
    ctx.errno = 0;
    assert_eq!(ouma_calloc(&mut ctx, 1 << (usize::BITS / 2), 1 << (usize::BITS / 2)), None);
    assert_eq!(ctx.errno, ENOMEM);
    ctx.errno = 0;
    assert_eq!(ouma_calloc(&mut ctx, MOST, 1), None);
    assert_eq!(ctx.errno, ENOMEM);
}

#[test]
fn calloc_asks_for_zeroed_memory() {
    let mut ctx = ThreadContext::new();
    assert_eq!(ouma_calloc(&mut ctx, 3, 5), request(15, 16, true));
    assert_eq!(ouma_calloc(&mut ctx, 0, 5), request(1, 16, true));
    assert_eq!(ouma_calloc(&mut ctx, 5, 0), request(1, 16, true));
    assert_eq!(ouma_calloc(&mut ctx, 0, usize::MAX), request(1, 16, true));
    assert_eq!(ctx.errno, 0);
}

#[test]
fn realloc_of_null_is_malloc() {
    let mut ctx = ThreadContext::new();
    for size in [0usize, 1, 100] {
        let plan = ouma_realloc(&mut ctx, false, size);
        let fresh = ouma_malloc(&mut ctx, size).map(Reallocation::Fresh);
        assert_eq!(plan, fresh);
    }
    assert_eq!(
        ouma_realloc(&mut ctx, false, 0),
        Some(Reallocation::Fresh(AllocationRequest {
            layout: AllocationLayout { size: 1, align: 16 },
            zeroed: false
        }))
    );
    assert_eq!(ctx.errno, 0);
    assert_eq!(ouma_realloc(&mut ctx, false, usize::MAX), None);
    assert_eq!(ctx.errno, ENOMEM);
}

#[test]
fn realloc_of_a_block_resizes_it() {
    let mut ctx = ThreadContext::new();
    assert_eq!(
        ouma_realloc(&mut ctx, true, 100),
        Some(Reallocation::Resize {
            layout: AllocationLayout { size: 100, align: 16 },
            new_size: 100
        })
    );
    assert_eq!(
        ouma_realloc(&mut ctx, true, 0),
        Some(Reallocation::Resize { layout: AllocationLayout { size: 0, align: 16 }, new_size: 0 })
    );
    assert_eq!(ctx.errno, 0);
    assert_eq!(ouma_realloc(&mut ctx, true, MOST), None);
    assert_eq!(ctx.errno, ENOMEM);
}

#[test]
fn memalign_rejects_a_bad_alignment() {
    let mut ctx = ThreadContext::new();
    assert_eq!(ouma_posix_memalign(&mut ctx, 3, 16), Memalign::Reject { code: EINVAL });
    assert_eq!(ouma_posix_memalign(&mut ctx, 0, 16), Memalign::Reject { code: EINVAL });
    assert_eq!(ouma_posix_memalign(&mut ctx, 1, 16), Memalign::Reject { code: EINVAL });
    assert_eq!(ouma_posix_memalign(&mut ctx, POINTER / 2, 16), Memalign::Reject { code: EINVAL });
    assert_eq!(ouma_posix_memalign(&mut ctx, POINTER * 3, 16), Memalign::Reject { code: EINVAL });
    assert_eq!(ouma_posix_memalign(&mut ctx, 3, usize::MAX), Memalign::Reject { code: EINVAL });
    assert_eq!(ctx.errno, 0);
    assert_eq!(EINVAL, 22);
}

#[test]
fn memalign_accepts_pointer_multiples() {
    let mut ctx = ThreadContext::new();
    assert_eq!(
        ouma_posix_memalign(&mut ctx, POINTER, 16),
        Memalign::Allocate(AllocationRequest {
            layout: AllocationLayout { size: 16, align: POINTER },
            zeroed: false
        })
    );
    assert_eq!(
        ouma_posix_memalign(&mut ctx, 4096, 0),
        Memalign::Allocate(AllocationRequest {
            layout: AllocationLayout { size: 1, align: 4096 },
            zeroed: false
        })
    );
    assert_eq!(ctx.errno, 0);
    assert_eq!(ouma_posix_memalign(&mut ctx, POINTER, usize::MAX), Memalign::Null);
    assert_eq!(ctx.errno, ENOMEM);
}

#[test]
fn memalign_request_yields_an_aligned_block() {
    let mut ctx = ThreadContext::new();
    let Memalign::Allocate(plan) = ouma_posix_memalign(&mut ctx, 8, 16) else {
        panic!("alignment 8 is accepted");
    };
    let layout = std::alloc::Layout::from_size_align(plan.layout.size, plan.layout.align).unwrap();
    let block = vec![0u128; 4];
    let address = block.as_ptr() as usize;
    assert_eq!(layout.align(), 8);
    assert_eq!(layout.size(), 16);
    assert_eq!(address % layout.align(), 0);
    assert_eq!(ouma_allocated(&mut ctx, address), address);
    assert_eq!(ctx.errno, 0);
}

#[test]
fn null_from_the_allocator_is_out_of_memory() {
    let mut ctx = ThreadContext::new();
    assert_eq!(ouma_allocated(&mut ctx, 0x1000), 0x1000);
    assert_eq!(ctx.errno, 0);
    assert_eq!(ouma_allocated(&mut ctx, 0), 0);
    assert_eq!(ctx.errno, ENOMEM);
    assert_eq!(ENOMEM, 12);
}

#[test]
fn free_of_null_does_nothing() {
    assert_eq!(ouma_free(false), None);
    assert_eq!(ouma_free_sized(false, 10), None);
    assert_eq!(ouma_free_sized(false, usize::MAX), None);
    assert_eq!(free_aligned_sized(false, 3, 10), None);
}

#[test]
fn sized_free_uses_the_callers_layout() {
    assert_eq!(ouma_free_sized(true, 10), Some(AllocationLayout { size: 10, align: 16 }));
    assert_eq!(ouma_free_sized(true, 0), Some(AllocationLayout { size: 0, align: 16 }));
    assert_eq!(free_aligned_sized(true, 64, 10), Some(AllocationLayout { size: 10, align: 64 }));
}
