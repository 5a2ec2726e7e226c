//! How the devices reach the interrupt lines and the scheduler.

use crate::bus::state::{cd_scheduled, BusState};
use crate::cdrom::{CdInterrupt, CdIrqType};
use crate::scheduler::{flagged, lemma_flag_update, Scheduler};
use crate::word::lemma_word_read_back;
use vstd::prelude::*;

verus! {

/// Two words joined show in every bit.
proof fn lemma_joined(a: u32, b: u32, i: u32)
    by (bit_vector)
    requires
        i < 32,
    ensures
        (a | b) & (1u32 << i) != 0 <==> a & (1u32 << i) != 0 || b & (1u32 << i) != 0,
        b & 0x01 != 0 <==> b & (1u32 << 0u32) != 0,
        b == 0 ==> b & (1u32 << i) == 0,
{
}

/// Every interrupt that the counters have raised is on its line afterwards, and no other
/// line changes. The graphics status changes only with a vertical blank.
pub proof fn law_counter_lines(s: BusState, line: u32)
    requires
        s.wf(),
        line < 32,
    ensures
        ({
            let d = s.timers_drained();
            let irqs = s.timers.pending_irqs;
            &&& flagged(d.istat(), line) == (flagged(irqs, line) || flagged(s.istat(), line))
            &&& d.timers.pending_irqs == 0
            &&& !flagged(irqs, 0) ==> d.gpu == s.gpu
            &&& d.gpu.vram == s.gpu.vram
            &&& d.ram == s.ram && d.cdrom == s.cdrom && d.sio == s.sio && d.spu == s.spu
                && d.scheduler == s.scheduler
        }),
{
    let irqs = s.timers.pending_irqs;
    lemma_joined(s.istat(), irqs, line);
    lemma_word_read_back(s.hw, 0x1070, 0, s.istat() | irqs);
}

/// The serial port's request for an interrupt is scheduled, after the delay it asks for,
/// in the first slot; without a request nothing changes.
pub proof fn law_serial_scheduled(s: BusState, slot: u32)
    requires
        s.wf(),
        s.timely(),
        slot < 16,
    ensures
        ({
            let d = s.sio_drained();
            let (a, b) = (s.scheduler, d.scheduler);
            &&& !s.sio.pending_irq ==> d == s
            &&& s.sio.pending_irq ==> !d.sio.pending_irq && flagged(b.interrupt_flags, slot) == (slot
                == 0 || flagged(a.interrupt_flags, slot)) && b.int_targets[slot as int] == (if slot
                == 0 {
                s.last_cycle + s.sio.pending_irq_delay
            } else {
                a.int_targets[slot as int] as int
            })
        }),
{
    lemma_flag_update(s.scheduler.interrupt_flags, 0, slot);
}

/// An event that the CD-ROM asks for is scheduled after its delay: responses in slot 2,
/// sectors in slot 3 and steps of the drive in slot 13.
pub proof fn law_disc_scheduled(s: Scheduler, event: CdInterrupt, cycle: u64, slot: u32)
    requires
        cycle + 0xFFFF_FFFF <= u64::MAX,
        slot < 16,
    ensures
        ({
            let t = cd_scheduled(s, seq![event], cycle);
            let own: u32 = match event.irq_type {
                CdIrqType::Command => 2,
                CdIrqType::Read => 3,
                CdIrqType::Lid => 13,
            };
            &&& flagged(t.interrupt_flags, slot) == (slot == own || flagged(
                s.interrupt_flags,
                slot,
            ))
            &&& t.int_targets[slot as int] == (if slot == own {
                cycle + event.delay
            } else {
                s.int_targets[slot as int] as int
            })
        }),
{
    let events = seq![event];
    assert(events.drop_last() =~= Seq::empty());
    reveal_with_fuel(cd_scheduled, 2);
    lemma_flag_update(s.interrupt_flags, 2, slot);
    lemma_flag_update(s.interrupt_flags, 3, slot);
    lemma_flag_update(s.interrupt_flags, 13, slot);
}

} // verus!
