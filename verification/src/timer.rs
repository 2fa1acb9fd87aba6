//! The programmable interval timer and the tick counter it drives.
use vstd::prelude::*;

verus! {

/// Frequency of the PIT's crystal, in Hz.
pub const PIT_BASE_FREQUENCY: u32 = 1193182;

/// Command byte: channel 0, low byte then high byte, square-wave mode.
pub const PIT_COMMAND: u8 = 0x36;

/// What is written to the PIT to make channel 0 fire at a frequency: the
/// command byte, then the divisor's low and high byte.
#[derive(Clone, Copy, Debug, PartialEq, Eq, Structural)]
pub struct PitProgram {
    pub command: u8,
    pub low: u8,
    pub high: u8,
}

/// The reload value for channel 0: the crystal frequency divided by the
/// requested frequency.
pub open spec fn pit_divisor(frequency: u32) -> u32 {
    PIT_BASE_FREQUENCY / frequency
}

/// The bytes that program the PIT to fire `frequency` times a second: the
/// command byte and the low and high byte of the divisor.
pub fn init(frequency: u32) -> (r: PitProgram)
    requires
        frequency > 0,
    ensures
        r.command == PIT_COMMAND,
        r.low as u32 == pit_divisor(frequency) & 0xFF,
        r.high as u32 == (pit_divisor(frequency) >> 8) & 0xFF,
{
    let divisor = PIT_BASE_FREQUENCY / frequency;
    let low = divisor & 0xFF;
    let high = (divisor >> 8) & 0xFF;
    assert(low <= 0xFF) by (bit_vector)
        requires
            low == divisor & 0xFF,
    ;
    assert(high <= 0xFF) by (bit_vector)
        requires
            high == (divisor >> 8) & 0xFF,
    ;
    PitProgram { command: PIT_COMMAND, low: low as u8, high: high as u8 }
}

/// Number of timer interrupts since boot.
pub struct TickCounter {
    ticks: u64,
}

impl View for TickCounter {
    type V = u64;

    closed spec fn view(&self) -> u64 {
        self.ticks
    }
}

impl TickCounter {
    /// No tick yet.
    pub fn new() -> (r: Self)
        ensures
            r@ == 0,
    {
        TickCounter { ticks: 0 }
    }
}

/// The count after one more timer interrupt: like the atomic it stands for,
/// the counter wraps to zero after `u64::MAX`.
pub open spec fn next_tick(n: u64) -> u64 {
    if n == u64::MAX {
        0
    } else {
        (n + 1) as u64
    }
}

/// Counts one timer interrupt.
pub fn tick(counter: &mut TickCounter)
    ensures
        final(counter)@ == next_tick(old(counter)@),
{
    counter.ticks = counter.ticks.wrapping_add(1);
}

/// The number of timer interrupts since boot.
pub fn get_ticks(counter: &TickCounter) -> (r: u64)
    ensures
        r == counter@,
{
    counter.ticks
}

/// The count after `k` ticks from boot.
pub open spec fn ticks_after(k: nat) -> u64
    decreases k,
{
    if k == 0 {
        0
    } else {
        next_tick(ticks_after((k - 1) as nat))
    }
}

/// Each tick is seen by the next reading: below the wrap, the count after a
/// tick is one more than the count before it.
pub proof fn law_tick_increments(before: u64)
    requires
        before < u64::MAX,
    ensures
        next_tick(before) == before + 1,
{
}

/// After `k` ticks from boot the count is `k`, modulo 2^64; reading it changes
/// nothing, so readings with no tick between them agree.
pub proof fn law_ticks_count(k: nat)
    ensures
        ticks_after(k) == k % 0x1_0000_0000_0000_0000,
    decreases k,
{
    if k > 0 {
        law_ticks_count((k - 1) as nat);
        let m: int = 0x1_0000_0000_0000_0000;
        vstd::arithmetic::div_mod::lemma_fundamental_div_mod((k - 1) as int, m);
        vstd::arithmetic::div_mod::lemma_fundamental_div_mod(k as int, m);
    }
}

} // verus!
