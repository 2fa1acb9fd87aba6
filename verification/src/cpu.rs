//! Control register values that enable the FPU and SSE, and the interrupt
//! vectors the two chained PICs are remapped to.
use vstd::prelude::*;

verus! {

/// Vector of the first PIC's IRQ 0.
pub const PIC_1_OFFSET: u8 = 32;

/// Vector of the second PIC's IRQ 8.
pub const PIC_2_OFFSET: u8 = PIC_1_OFFSET + 8;

/// Vector of the timer interrupt (IRQ 0).
pub const TIMER_VECTOR: u8 = PIC_1_OFFSET;

/// Vector of the keyboard interrupt (IRQ 1).
pub const KEYBOARD_VECTOR: u8 = PIC_1_OFFSET + 1;

/// Vector of the mouse interrupt (IRQ 12).
pub const MOUSE_VECTOR: u8 = PIC_2_OFFSET + 4;

/// Interrupt mask of the first PIC: only the cascade line (IRQ 2) open.
pub const PIC_1_MASK: u8 = 0xFB;

/// Interrupt mask of the second PIC: only the mouse line (IRQ 12) open.
pub const PIC_2_MASK: u8 = 0xEF;

/// CR0 with emulation (bit 2) off and coprocessor monitoring (bit 1) on.
pub fn fpu_cr0(cr0: u64) -> (r: u64)
    ensures
        r == (cr0 & !4u64) | 2u64,
{
    let mut v = cr0;
    v = v & !(1u64 << 2);
    v = v | (1u64 << 1);
    assert(v == (cr0 & !4u64) | 2u64) by (bit_vector)
        requires
            v == (cr0 & !(1u64 << 2)) | (1u64 << 1),
    ;
    v
}

/// CR4 with OSFXSR (bit 9) and OSXMMEXCPT (bit 10) on.
pub fn sse_cr4(cr4: u64) -> (r: u64)
    ensures
        r == cr4 | 0x600u64,
{
    let mut v = cr4;
    v = v | (1u64 << 9);
    v = v | (1u64 << 10);
    assert(v == cr4 | 0x600u64) by (bit_vector)
        requires
            v == (cr4 | (1u64 << 9)) | (1u64 << 10),
    ;
    v
}

} // verus!
