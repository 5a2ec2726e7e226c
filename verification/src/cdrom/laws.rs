//! Laws of the CD-ROM controller: how addresses advance, how a sector reaches
//! the host, and how responses wait for each other.

use crate::cdrom::{
    bcd_byte, bcd_value, msf_lba, next_frame, next_minute, next_msf, next_second, CDL_ID,
    CD_READ_TIME, COMPLETE, CdInterrupt, CdIrqType, CdState, DISK_ERROR, DRIVESTATE_PREPARE_CD,
    DRIVESTATE_RESCAN_CD, DRIVESTATE_STANDBY, DRQSTS, IRQ_RESCHEDULE,
};
use crate::bits::lemma_byte_of;
use vstd::prelude::*;

verus! {

/// Whether a byte is binary-coded decimal.
pub open spec fn is_bcd(b: u8) -> bool {
    (b >> 4) <= 9 && (b & 0x0F) <= 9
}

/// Whether an address names a frame of a second of a minute.
pub open spec fn is_msf(msf: [u8; 3]) -> bool {
    &&& is_bcd(msf[0])
    &&& is_bcd(msf[1])
    &&& is_bcd(msf[2])
    &&& bcd_value(msf[1]) < 60
    &&& bcd_value(msf[2]) < 75
}

/// A number below 100 is the value of its binary-coded decimal byte.
pub proof fn law_bcd_round_trip(n: u8)
    requires
        n < 100,
    ensures
        is_bcd(bcd_byte(n as int)),
        bcd_value(bcd_byte(n as int)) == n,
{
    let t: u8 = n / 10;
    let u: u8 = n % 10;
    lemma_byte_of(t, u);
}

/// The address after a valid one is valid and names the sector after it; the
/// last address of all is left out, as it has none after it.
pub proof fn law_next_msf(msf: [u8; 3])
    requires
        is_msf(msf),
        msf_lba(msf) < 99 * 60 * 75 + 59 * 75 + 74,
    ensures
        is_msf(next_msf(msf)),
        msf_lba(next_msf(msf)) == msf_lba(msf) + 1,
{
    let n = next_msf(msf);
    let m = next_minute(msf);
    let s = next_second(msf);
    let f = next_frame(msf);
    assert(bcd_value(msf[0]) <= 99);
    assert(0 <= m < 100 && 0 <= s < 60 && 0 <= f < 75);
    law_bcd_round_trip(m as u8);
    law_bcd_round_trip(s as u8);
    law_bcd_round_trip(f as u8);
    assert(n[0] == bcd_byte(m));
    assert(n[1] == bcd_byte(s));
    assert(n[2] == bcd_byte(f));
}

/// While bytes remain in the window, taking them only moves the position.
proof fn lemma_taking_bytes(s: CdState, k: nat)
    requires
        s.transfer_index == 12,
        s.window() == 2060,
        k < 2048,
    ensures
        s.bytes_taken(k) == (CdState { transfer_index: (12 + k) as usize, ..s }),
    decreases k,
{
    if k > 0 {
        lemma_taking_bytes(s, (k - 1) as nat);
    }
}

/// A sector that has been read reaches the host: once the host asks for the
/// data, the next 2048 bytes are the user data of that sector, and the transfer
/// ends with the last of them and not before.
pub proof fn law_sector_delivery(s: CdState)
    requires
        s.wf(),
        s.reading,
        s.irq == 0,
        s.stat == 0,
        s.ctrl & 3 == 0,
        s.mode & 0x30 == 0,
        s.sector_offset() + 2352 <= s.disc.len(),
    ensures
        ({
            let r = s.sector_read().port_written(3, 0x80);
            &&& Some(r.data_bytes(2048)) == s.user_data(
                msf_lba(s.set_sector_play),
            )
            &&& forall|k: nat| k < 2048 ==> (#[trigger] r.bytes_taken(k)).read
            &&& !r.bytes_taken(2048).read
            &&& r.bytes_taken(2048).ctrl & DRQSTS == 0
        }),
{
    lemma_byte_of(0, s.ctrl);
    let q = s.sector_read();
    let r = q.port_written(3, 0x80);
    assert(r.read && r.transfer_index == 12 && r.window() == 2060);
    assert forall|k: nat| k < 2048 implies (#[trigger] r.bytes_taken(k)).read by {
        lemma_taking_bytes(r, k);
    }
    lemma_taking_bytes(r, 2047);
    assert(r.bytes_taken(2048) == r.bytes_taken(2047).byte_taken());
    let data = s.user_data(msf_lba(s.set_sector_play));
    assert forall|i: int| 0 <= i < 2048 implies r.data_bytes(2048)[i] == data->0[i] by {
        lemma_taking_bytes(r, i as nat);
    }
    assert(r.data_bytes(2048) =~= data->0);
}

/// A response that has not been acknowledged is never overwritten: commands and
/// sectors that fall due meanwhile are only put off.
pub proof fn law_responses_wait(s: CdState)
    requires
        s.stat != 0,
    ensures
        s.interrupted() == s.asked(CdIrqType::Command, IRQ_RESCHEDULE),
        s.sector_read() == if s.reading {
            s.asked(CdIrqType::Read, IRQ_RESCHEDULE)
        } else {
            s
        },
{
}

/// After an acknowledgement that covers the response, the next one is given.
pub proof fn law_acknowledge(s: CdState)
    requires
        s.ctrl & 3 == 1,
    ensures
        s.port_written(3, 0xFF).stat == 0,
        s.port_written(3, 0xFF).param_c == 0,
{
    lemma_byte_of(s.stat, 0);
}

/// Without a disc the identification fails, and with one it answers `PCSX`.
pub proof fn law_identify(s: CdState)
    requires
        s.wf(),
        s.drive_state == DRIVESTATE_STANDBY,
        s.stat == 0,
        s.irq_repeated == 0,
        s.irq == CDL_ID + 0x100,
    ensures
        s.interrupted().stat == if s.has_disc {
            COMPLETE
        } else {
            DISK_ERROR
        },
        s.interrupted().result_c == 8,
        s.has_disc ==> s.interrupted().result.subrange(4, 8) == seq![0x50u8, 0x43, 0x53, 0x58],
        !s.has_disc ==> s.interrupted().result[0] == 0x08 && s.interrupted().result[1] == 0x40,
{
    if s.has_disc {
        assert(s.interrupted().result.subrange(4, 8) =~= seq![0x50u8, 0x43, 0x53, 0x58]);
    }
}

/// A rescanned drive is prepared and then stands by, each step asked for by the
/// one before.
pub proof fn law_lid_sequence(s: CdState)
    requires
        s.drive_state == DRIVESTATE_RESCAN_CD,
    ensures
        s.lid_stepped().drive_state == DRIVESTATE_PREPARE_CD,
        s.lid_stepped().lid_stepped().drive_state == DRIVESTATE_STANDBY,
        s.lid_stepped().lid_stepped().pending == s.pending.push(
            (CdInterrupt {
                irq_type: CdIrqType::Lid,
                delay: (CD_READ_TIME * 150) as u32,
            }),
        ).push(
            (CdInterrupt {
                irq_type: CdIrqType::Lid,
                delay: (CD_READ_TIME * 26) as u32,
            }),
        ),
{
}

} // verus!
