//! Laws of the plain counters in numbers.

use crate::basic::timers::{Counter, Timers};
use crate::bits::lemma_half_of;
use vstd::prelude::*;

verus! {

/// A counter that is brought up to a cycle has moved on by the counts since it was last
/// brought up, modulo 2^16. If bit 4 of its mode is set it is flagged at or beyond its
/// target, and with bit 3 it then starts over.
pub proof fn law_counter_clocked(c: Counter, cycle: u64, rate: u64)
    requires
        !c.paused,
        rate > 0,
        c.cycle_start <= cycle,
        0 < (cycle - c.cycle_start) / rate as int % 0x1_0000,
    ensures
        ({
            let d = c.clocked(cycle, rate);
            let count = (c.value + (cycle - c.cycle_start) / rate as int) % 0x1_0000;
            let hit = c.mode / 16 % 2 == 1 && count >= c.target;
            &&& d.value == (if hit && c.mode / 8 % 2 == 1 {
                0
            } else {
                count
            })
            &&& hit ==> d.mode / 0x800 % 2 == 1
            &&& !hit && c.mode / 32 % 2 == 0 ==> d.mode == c.mode
            &&& c.mode / 32 % 2 == 1 && count == 0xFFFF && !hit ==> d.mode / 0x1000 % 2 == 1
            &&& d.target == c.target && d.cycle_start == cycle
        }),
{
    let n = (cycle - c.cycle_start) / rate as int;
    assert(0 <= n <= cycle) by (nonlinear_arith)
        requires
            n == (cycle - c.cycle_start) / rate as int,
            rate > 0,
            0 <= c.cycle_start <= cycle,
    ;
    let ticks = n as u64;
    lemma_low_bits(ticks);
    lemma_half_of(c.mode, 0);
    assert(n == n / 0x1_0000 * 0x1_0000 + n % 0x1_0000);
}

proof fn lemma_low_bits(n: u64)
    by (bit_vector)
    ensures
        (n as u16) as u64 == n % 0x1_0000,
{
}

/// As many scanlines have passed as begin by the cycle, one every scanline's length.
pub proof fn law_scanlines(t: Timers, cycle: u64)
    ensures
        cycle < t.next_hsync ==> t.lines_due(cycle) == 0,
        cycle >= t.next_hsync ==> t.next_hsync + (t.lines_due(cycle) - 1) * 2146
            <= cycle < t.next_hsync + t.lines_due(cycle) * 2146,
{
}

/// The vertical blank begins and ends in turn, and with its end a frame is counted.
pub proof fn law_frames(t: Timers, cycle: u64)
    requires
        t.in_range(cycle),
    ensures
        ({
            let u = t.vblank_passed(cycle);
            &&& cycle < t.next_vblank ==> u == t
            &&& cycle >= t.next_vblank ==> u.in_vblank == !t.in_vblank
            &&& cycle >= t.next_vblank && t.in_vblank ==> u.frame_count == t.frame_count + 1
                && u.hsync_count == 0 && u.next_vblank == (t.frame_count + 1) * 564_398
                + 521_478
            &&& cycle >= t.next_vblank && !t.in_vblank ==> u.frame_count == t.frame_count
                && u.next_vblank == (t.frame_count + 1) * 564_398
        }),
{
}

/// The cycles per count: counter 0 counts dots with bit 8 of its mode, counter 2 eighths
/// with bit 9, and both count cycles otherwise.
pub proof fn law_counter_rates(t: Timers)
    ensures
        t.rate(0) == (if t.counters[0].mode / 0x100 % 2 == 1 {
            11
        } else {
            1int
        }),
        t.rate(2) == (if t.counters[2].mode / 0x200 % 2 == 1 {
            8
        } else {
            1int
        }),
{
    lemma_half_of(t.counters[0].mode, 0);
    lemma_half_of(t.counters[2].mode, 0);
}

} // verus!
