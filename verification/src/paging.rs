//! The frame allocator that the page-table code draws intermediate tables from.
use vstd::prelude::*;
use x86_64::structures::paging::{PhysFrame, Size4KiB};
use x86_64::PhysAddr;
use crate::pmm::{all_locked, takes_lowest_free, FrameBitmap};

verus! {

/// Highest physical address width that `x86_64::PhysAddr` accepts, as a bound.
pub const PHYS_ADDR_LIMIT: u64 = 0x10_0000_0000_0000;

/// Calls `x86_64::structures::paging::PhysFrame::<Size4KiB>::containing_address`
/// on `PhysAddr::new(addr)` and returns the frame's start address as a `u64`.
/// Claimed of the crate: `PhysAddr::new` accepts any address below 2^52 (it
/// panics only when a bit from 52 up is set), and the containing frame starts at
/// the address rounded down to a multiple of 4096.
#[verifier::external_body]
fn containing_frame_start(addr: u64) -> (start: u64)
    requires
        addr < PHYS_ADDR_LIMIT,
    ensures
        start == addr - addr % 4096,
{
    PhysFrame::<Size4KiB>::containing_address(PhysAddr::new(addr)).start_address().as_u64()
}

/// Hands the physical frame bitmap's free frames to the page-table code.
pub struct BootFrameAllocator;

impl BootFrameAllocator {
    /// Takes the lowest free frame from the bitmap and returns the start of the
    /// 4 KiB frame that contains it; `None` when every frame is in use.
    pub fn allocate_frame(&mut self, pmm: &mut FrameBitmap) -> (r: Option<u64>)
        requires
            old(pmm).wf(),
            old(pmm)@.len() * 4096 <= PHYS_ADDR_LIMIT,
        ensures
            final(pmm).wf(),
            final(pmm).spec_total_pages() == old(pmm).spec_total_pages(),
            match r {
                Some(start) => {
                    &&& takes_lowest_free(old(pmm)@, final(pmm)@, start)
                    &&& final(pmm).spec_free_pages() == (if old(pmm).spec_free_pages() == 0 {
                        usize::MAX
                    } else {
                        (old(pmm).spec_free_pages() - 1) as usize
                    })
                },
                None => {
                    &&& all_locked(old(pmm)@)
                    &&& *final(pmm) == *old(pmm)
                },
            },
    {
        match pmm.find_free_frame() {
            Some(addr) => Some(containing_frame_start(addr)),
            None => None,
        }
    }
}

} // verus!
