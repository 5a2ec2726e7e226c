//! Laws of the CD-ROM's ports and sectors, by byte.

use crate::bits::lemma_byte_of;
use crate::cdrom::{CdInterrupt, CdIrqType, CdState};
use vstd::prelude::*;

verus! {

/// A sector of the image is 2352 bytes: twelve of pattern, twelve of header, then 2048 of
/// user data. The disc has a sector if it has all of it.
pub proof fn law_user_data(s: CdState, lba: int, i: int)
    requires
        0 <= lba,
        0 <= i < 2048,
    ensures
        s.user_data(lba) is Some <==> s.disc.len() >= (lba + 1) * 2352,
        s.user_data(lba) is Some ==> s.user_data(lba)->0.len() == 2048 && s.user_data(lba)->0[i]
            == s.disc[lba * 2352 + 24 + i],
{
    assert((lba + 1) * 2352 == lba * 2352 + 2352);
}

proof fn lemma_whole_taken(r: CdState, k: nat)
    requires
        r.transfer_index == 0,
        r.mode & 0x30 == 0x20,
        r.read,
        k < 2340,
    ensures
        r.bytes_taken(k) == (CdState { transfer_index: k as usize, ..r }),
    decreases k,
{
    if k > 0 {
        lemma_whole_taken(r, (k - 1) as nat);
    }
}

/// In whole-sector mode the host gets the 2340 bytes that follow the pattern.
pub proof fn law_whole_sector(s: CdState, i: int)
    requires
        s.wf(),
        s.reading,
        s.irq == 0,
        s.stat == 0,
        s.ctrl & 3 == 0,
        s.mode & 0x30 == 0x20,
        s.sector_offset() + 2352 <= s.disc.len(),
        0 <= i < 2340,
    ensures
        ({
            let r = s.sector_read().port_written(3, 0x80);
            &&& r.data_bytes(2340)[i] == s.disc[s.sector_offset() + 12 + i]
            &&& r.bytes_taken(i as nat).read
            &&& !r.bytes_taken(2340).read
        }),
{
    lemma_byte_of(0, s.ctrl);
    let r = s.sector_read().port_written(3, 0x80);
    lemma_whole_taken(r, i as nat);
    lemma_whole_taken(r, 2339);
    assert(r.bytes_taken(2340) == r.bytes_taken(2339).byte_taken());
}

/// The flags of port bytes.
proof fn lemma_port_flags(v: u8, c: u8)
    by (bit_vector)
    ensures
        (v & 3) | (c & !3u8) == c - c % 4 + v % 4,
        c & 3 == c % 4,
        v & 0x80 != 0 <==> v >= 128,
        v & 0x40 != 0 <==> v / 64 % 2 == 1,
        v | 0xE0 == 0xE0 + v % 32,
        c & 1 != 0 <==> c % 2 == 1,
        v & 0x30 == 0x20 <==> v / 16 % 4 == 2,
{
}

/// Reading the ports. The interrupt port shows the response that is at hand, or which
/// are enabled, with the top three bits set; the data port gives sector data only once
/// the host has asked for it.
pub proof fn law_port_reads(s: CdState)
    ensures
        s.port(3) == (if s.ctrl % 2 == 1 {
            0xE0 + s.stat as int % 32
        } else {
            0xE0 + s.reg2 as int % 32
        }),
        s.port_read(3) == s,
        !s.read ==> s.port(2) == 0,
        s.read ==> s.port(2) == s.transfer[s.transfer_index as int],
{
    lemma_port_flags(s.stat, s.ctrl);
    lemma_port_flags(s.reg2, s.ctrl);
}

/// Writing the ports. Port 0 chooses the registers of the others by its low two bits;
/// under index 1, port 2 says which responses interrupt and port 3 acknowledges; under
/// index 0, port 3 asks for the sector with its top bit, after the header, or from its
/// start in whole-sector mode.
pub proof fn law_port_writes(s: CdState, v: u8)
    ensures
        s.port_written(0, v) == (CdState {
            ctrl: (s.ctrl as int - s.ctrl as int % 4 + v as int % 4) as u8,
            ..s
        }),
        s.ctrl % 4 == 1 ==> s.port_written(2, v) == (CdState { reg2: v, ..s }),
        s.ctrl % 4 == 1 ==> s.port_written(3, v).stat == s.stat & !v,
        s.ctrl % 4 == 1 && v / 64 % 2 == 1 ==> s.port_written(3, v).param_c == 0,
        s.ctrl % 4 == 1 && v / 64 % 2 == 0 ==> s.port_written(3, v).param_c == s.param_c,
        s.ctrl % 4 == 0 && v >= 128 && !s.read ==> s.port_written(3, v) == (CdState {
            read: true,
            transfer_index: if s.mode / 16 % 4 == 2 {
                0
            } else {
                12
            },
            ..s
        }),
        s.ctrl % 4 == 0 && v < 128 ==> s.port_written(3, v) == s,
        s.ctrl % 4 == 0 && s.read ==> s.port_written(3, v) == s,
        s.ctrl % 4 >= 2 ==> s.port_written(1, v) == s && s.port_written(2, v) == s
            && s.port_written(3, v) == s,
        s.ctrl % 4 == 1 ==> s.port_written(1, v) == s,
{
    lemma_port_flags(v, s.ctrl);
    lemma_port_flags(s.mode, s.ctrl);
}

/// A rescanned disc: the drive spins up, then prepares, then stands by, with 150 and 26
/// sector times between the steps.
pub proof fn law_drive_steps(s: CdState)
    ensures
        s.drive_state == 2 ==> s.lid_stepped().drive_state == 3 && s.lid_stepped().stat_p
            == s.stat_p | 0x02 && s.lid_stepped().pending == s.pending.push(
            CdInterrupt { irq_type: CdIrqType::Lid, delay: 67_737_600 },
        ),
        s.drive_state == 3 ==> s.lid_stepped().drive_state == 0 && s.lid_stepped().stat_p
            == s.stat_p | 0x40 && s.lid_stepped().pending == s.pending.push(
            CdInterrupt { irq_type: CdIrqType::Lid, delay: 11_741_184 },
        ),
        s.drive_state == 0 ==> s.lid_stepped() == (CdState { stat_p: s.stat_p & !0x40u8, ..s }),
{
}

} // verus!
