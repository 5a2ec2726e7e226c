//! A ring of the last instructions, shown once after a crash.

use vstd::prelude::*;

verus! {

/// The number of instructions that are kept.
pub const TRACE_SIZE: usize = 64;

/// An instruction with the registers that matter most.
#[derive(Debug, Clone, Copy, PartialEq, Eq, Structural)]
pub struct TraceEntry {
    pub pc: u32,
    pub instr: u32,
    pub t9: u32,
    pub ra: u32,
    pub k0: u32,
    pub k1: u32,
    pub sp: u32,
    pub status: u32,
    pub epc: u32,
    pub in_ds: bool,
}

/// The ring: `pos` is where the oldest entry is.
pub struct TraceRing {
    pub entries: [TraceEntry; 64],
    pub pos: usize,
    /// Whether it has been shown.
    pub dumped: bool,
}

impl TraceEntry {
    /// An entry that has not been used.
    pub open spec fn unused() -> TraceEntry {
        TraceEntry {
            pc: 0,
            instr: 0,
            t9: 0,
            ra: 0,
            k0: 0,
            k1: 0,
            sp: 0,
            status: 0,
            epc: 0,
            in_ds: false,
        }
    }

    /// Whether an entry is left out when the ring is shown.
    pub open spec fn is_blank(self) -> bool {
        self.pc == 0 && self.instr == 0
    }
}

impl Default for TraceEntry {
    fn default() -> (e: TraceEntry)
        ensures
            e == TraceEntry::unused(),
    {
        TraceEntry {
            pc: 0,
            instr: 0,
            t9: 0,
            ra: 0,
            k0: 0,
            k1: 0,
            sp: 0,
            status: 0,
            epc: 0,
            in_ds: false,
        }
    }
}

impl TraceRing {
    /// The first `n` entries from the oldest on, without the blank ones.
    pub open spec fn listed(self, n: nat) -> Seq<TraceEntry>
        decreases n,
    {
        if n == 0 {
            Seq::empty()
        } else {
            let before = self.listed((n - 1) as nat);
            let e = self.entries[(self.pos + n - 1) % 64];
            if e.is_blank() {
                before
            } else {
                before.push(e)
            }
        }
    }

    /// An empty ring.
    pub fn new() -> (r: TraceRing)
        ensures
            forall|i: int| 0 <= i < 64 ==> r.entries[i] == TraceEntry::unused(),
            r.pos == 0,
            !r.dumped,
    {
        TraceRing { entries: [TraceEntry::default(); 64], pos: 0, dumped: false }
    }
}

/// Gives the entries to show, oldest first. A ring is shown once: after that
/// there is nothing to show.
pub fn dump_trace_ring(ring: &mut TraceRing) -> (lines: Option<Vec<TraceEntry>>)
    requires
        old(ring).pos + TRACE_SIZE <= usize::MAX,
    ensures
        *final(ring) == (TraceRing { dumped: true, ..*old(ring) }),
        lines is None <==> old(ring).dumped,
        lines is Some ==> lines->0@ == old(ring).listed(TRACE_SIZE as nat),
{
    if ring.dumped {
        return None;
    }
    ring.dumped = true;
    let mut lines: Vec<TraceEntry> = Vec::new();
    let mut i: usize = 0;
    while i < TRACE_SIZE
        invariant
            i <= TRACE_SIZE,
            ring.pos + TRACE_SIZE <= usize::MAX,
            *ring == (TraceRing { dumped: true, ..*old(ring) }),
            lines@ == old(ring).listed(i as nat),
        decreases TRACE_SIZE - i,
    {
        let e: TraceEntry = ring.entries[(ring.pos + i) % TRACE_SIZE];
        if !(e.pc == 0 && e.instr == 0) {
            lines.push(e);
        }
        i += 1;
    }
    Some(lines)
}

} // verus!
