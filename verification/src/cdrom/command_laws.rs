//! What each command to the CD-ROM controller is answered, byte by byte, and what
//! a game gets that reads a disc.

use crate::cdrom::laws::law_sector_delivery;
use crate::cdrom::{bcd_value, msf_lba, CdInterrupt, CdIrqType, CdState};
use crate::bits::lemma_byte_of;
use vstd::prelude::*;

verus! {

/// Whether response `irq` falls due on a drive that stands by, with nothing before
/// it to be acknowledged.
pub open spec fn falls_due(s: CdState, irq: int) -> bool {
    &&& s.wf()
    &&& s.stat == 0
    &&& s.irq_repeated == 0
    &&& s.irq == irq
    &&& s.drive_state == 0
}

/// Whether `r` shows a response of kind `kind` with `size` bytes.
pub open spec fn responds(r: CdState, kind: int, size: int) -> bool {
    &&& r.stat == kind
    &&& r.result_c == size
    &&& r.result_p == 0
    &&& r.result_ready == 1
    &&& r.param_c == 0
    &&& r.irq_repeated == 0
}

/// Whether one more event of the given kind is asked for.
pub open spec fn asks(s: CdState, r: CdState, irq_type: CdIrqType, delay: int) -> bool {
    r.pending == s.pending.push(CdInterrupt { irq_type, delay: delay as u32 })
}

/// Whether a second response to `cmd` is asked for.
pub open spec fn follows_up(s: CdState, r: CdState, cmd: int, delay: int) -> bool {
    r.irq == cmd + 0x100 && r.e_cycle == delay && asks(s, r, CdIrqType::Command, delay)
}

/// The value of a binary-coded decimal byte in numbers.
pub proof fn law_bcd(b: u8)
    ensures
        bcd_value(b) == b as int / 16 * 10 + b as int % 16,
{
    lemma_byte_of(b, 0);
}

/// The sector that an address names: 75 to a second, 60 seconds to a minute.
pub proof fn law_sector_number(msf: [u8; 3])
    ensures
        msf_lba(msf) == (msf[0] as int / 16 * 10 + msf[0] as int % 16) * 4500 + (msf[1] as int / 16
            * 10 + msf[1] as int % 16) * 75 + (msf[2] as int / 16 * 10 + msf[2] as int % 16),
{
    law_bcd(msf[0]);
    law_bcd(msf[1]);
    law_bcd(msf[2]);
}

/// A read command, of either kind, is acknowledged and starts the drive reading from
/// the location set last. The first sector falls due after two sector times, or one
/// at double speed.
pub proof fn law_read_command(s: CdState, cmd: int)
    requires
        cmd == 6 || cmd == 27,
        falls_due(s, cmd) || falls_due((CdState { drive_state: 0, ..s }), cmd) && s.drive_state
            == 4,
    ensures
        ({
            let r = s.interrupted();
            &&& responds(r, 3, 1)
            &&& r.result[0] == (s.stat_p | 0x20) & !0x40u8
            &&& r.reading
            &&& !r.setloc_pending
            &&& r.set_sector_play == (if s.setloc_pending {
                s.set_sector
            } else {
                s.set_sector_play
            })
            &&& r.irq == 0
            &&& r.drive_state == 0
            &&& r.mode == s.mode
            &&& r.disc == s.disc
            &&& r.read == s.read
            &&& asks(
                s,
                r,
                CdIrqType::Read,
                if s.mode & 0x80 != 0 {
                    451_584
                } else {
                    903_168
                },
            )
        }),
{
}

/// The simple commands: status, location, mode, filter and mute. All are acknowledged
/// with the drive status.
pub proof fn law_simple_commands(s: CdState, cmd: int)
    requires
        falls_due(s, cmd),
        cmd == 1 || cmd == 2 || cmd == 11 || cmd == 12 || cmd == 13 || cmd == 14,
    ensures
        ({
            let r = s.interrupted();
            &&& responds(r, 3, 1)
            &&& r.result[0] == s.stat_p
            &&& r.irq == 0
            &&& r.pending == s.pending
            &&& r.stat_p == (if cmd == 1 {
                s.stat_p & !0x10u8
            } else {
                s.stat_p
            })
            &&& r.muted == (if cmd == 11 {
                true
            } else if cmd == 12 {
                false
            } else {
                s.muted
            })
            &&& r.file == (if cmd == 13 {
                s.param[0]
            } else {
                s.file
            })
            &&& r.channel == (if cmd == 13 {
                s.param[1]
            } else {
                s.channel
            })
            &&& r.mode == s.mode
            &&& r.reading == s.reading
            &&& r.set_sector == s.set_sector
            &&& r.setloc_pending == s.setloc_pending
            &&& r.set_sector_play == s.set_sector_play
            &&& r.drive_state == s.drive_state
        }),
{
}

/// The commands that report: parameters, location, tracks and the controller's date.
pub proof fn law_reporting_commands(s: CdState, cmd: int)
    requires
        falls_due(s, cmd),
    ensures
        ({
            let r = s.interrupted();
            &&& cmd == 15 ==> responds(r, 3, 5) && r.result.subrange(0, 5) == seq![
                s.stat_p,
                s.mode,
                0u8,
                s.file,
                s.channel,
            ]
            &&& cmd == 16 ==> responds(r, 3, 8) && r.result.subrange(0, 8) == s.transfer.subrange(
                0,
                8,
            )
            &&& cmd == 17 ==> responds(r, 3, 8) && r.result.subrange(0, 8) == seq![
                0u8,
                0,
                0,
                0,
                0,
                0,
                0,
                0,
            ]
            &&& cmd == 19 && s.has_disc ==> responds(r, 3, 3) && r.result.subrange(0, 3) == seq![
                s.stat_p,
                1u8,
                1,
            ]
            &&& cmd == 20 && s.has_disc ==> responds(r, 3, 4) && r.result.subrange(0, 3) == seq![
                s.stat_p,
                0u8,
                2,
            ]
            &&& (cmd == 19 || cmd == 20) && !s.has_disc ==> responds(r, 5, 1) && r.result[0]
                == s.stat_p | 1
            &&& cmd == 25 && s.param[0] == 0x20 ==> responds(r, 3, 4) && r.result.subrange(0, 4)
                == seq![0x98u8, 0x06, 0x10, 0xC3]
            &&& cmd == 25 && s.param[0] != 0x20 ==> responds(r, 3, 1) && r.result[0] == s.stat_p
            &&& 15 <= cmd <= 20 && cmd != 18 || cmd == 25 ==> r.irq == 0 && r.pending == s.pending
                && r.stat_p == s.stat_p && r.mode == s.mode && r.reading == s.reading
        }),
{
    let r = s.interrupted();
    if cmd == 15 {
        assert(r.result.subrange(0, 5) =~= seq![s.stat_p, s.mode, 0u8, s.file, s.channel]);
    } else if cmd == 16 {
        assert(r.result.subrange(0, 8) =~= s.transfer.subrange(0, 8));
    } else if cmd == 17 {
        assert(r.result.subrange(0, 8) =~= seq![0u8, 0, 0, 0, 0, 0, 0, 0]);
    } else if cmd == 19 && s.has_disc {
        assert(r.result.subrange(0, 3) =~= seq![s.stat_p, 1u8, 1]);
    } else if cmd == 20 && s.has_disc {
        assert(r.result.subrange(0, 3) =~= seq![s.stat_p, 0u8, 2]);
    } else if cmd == 25 {
        assert(s.param[0] == 0x20 ==> r.result.subrange(0, 4) =~= seq![
            0x98u8,
            0x06,
            0x10,
            0xC3,
        ]);
    }
}

/// The commands that are answered twice are acknowledged first, and ask for their
/// second response. Stopping and seeking end a reading; a reset restores the mode.
pub proof fn law_lasting_commands(s: CdState, cmd: int)
    requires
        falls_due(s, cmd),
    ensures
        ({
            let r = s.interrupted();
            let quiet = (s.stat_p & !(if s.play {
                0x80u8
            } else {
                0u8
            })) & !0x60u8;
            let lasting = cmd == 7 || cmd == 8 || cmd == 9 || cmd == 10 || cmd == 21 || cmd == 22
                || cmd == 26 || cmd == 30;
            &&& lasting ==> responds(r, 3, 1) && r.result[0] == s.stat_p
            &&& cmd == 7 ==> follows_up(s, r, 7, 28_224_000)
            &&& cmd == 8 ==> follows_up(s, r, 8, 6_773_760) && r.drive_state == 4 && !r.reading
                && !r.play && r.stat_p == quiet
            &&& cmd == 9 ==> follows_up(s, r, 9, 7000) && r.ctrl & 0x80 != 0 && r.stat_p == s.stat_p
            &&& cmd == 10 ==> follows_up(s, r, 10, 4_100_000) && !r.muted && r.mode == 0x20
            &&& cmd == 21 || cmd == 22 ==> follows_up(
                s,
                r,
                cmd,
                if s.seeked == 1 {
                    0x800
                } else {
                    1_806_336
                },
            ) && r.seeked == 0 && !r.reading && !r.play && r.stat_p == quiet | 0x40
            &&& cmd == 26 ==> follows_up(s, r, 26, 20_480)
            &&& cmd == 30 ==> follows_up(s, r, 30, 20_321_280)
            &&& lasting && cmd != 8 ==> r.drive_state == 0
            &&& cmd == 28 ==> responds(r, 3, 1) && r.result[0] == s.stat_p && r.drive_state == 2
                && r.stat_p == s.stat_p | 0x10 && asks(s, r, CdIrqType::Lid, 20_480) && r.irq == 0
        }),
{
    lemma_byte_of(s.stat_p, s.ctrl & !0x80u8);
}

/// Second responses: the command is complete. A stopped drive no longer turns, a
/// paused one no longer reads, and after a seek the set location is the current one.
pub proof fn law_second_responses(s: CdState, cmd: int)
    requires
        falls_due(s, cmd + 0x100),
    ensures
        ({
            let r = s.interrupted();
            let completes = cmd == 7 || cmd == 8 || cmd == 9 || cmd == 10 || cmd == 21 || cmd == 22
                || cmd == 30;
            &&& completes ==> responds(r, 2, 1) && r.result[0] == r.stat_p && r.irq == 0
                && r.pending == s.pending
            &&& cmd == 7 || cmd == 10 || cmd == 30 ==> r.stat_p == s.stat_p
            &&& cmd == 8 ==> r.stat_p == s.stat_p & !0x02u8
            &&& cmd == 9 ==> r.stat_p == s.stat_p & !0x20u8
            &&& cmd == 21 || cmd == 22 ==> r.stat_p == (s.stat_p | 0x02) & !0x40u8 && r.seeked == 1
                && !r.setloc_pending && r.set_sector_play == (if s.setloc_pending {
                s.set_sector
            } else {
                s.set_sector_play
            })
            &&& cmd == 26 && s.has_disc ==> responds(r, 2, 8) && r.result.subrange(0, 8) == seq![
                s.stat_p,
                0u8,
                0,
                0,
                0x50,
                0x43,
                0x53,
                0x58,
            ]
            &&& cmd == 26 && !s.has_disc ==> responds(r, 5, 8) && r.result.subrange(0, 8) == seq![
                0x08u8,
                0x40,
                0,
                0,
                0,
                0,
                0,
                0,
            ]
        }),
{
    let r = s.interrupted();
    if cmd == 26 && s.has_disc {
        assert(r.result.subrange(0, 8) =~= seq![s.stat_p, 0u8, 0, 0, 0x50, 0x43, 0x53, 0x58]);
    } else if cmd == 26 {
        assert(r.result.subrange(0, 8) =~= seq![0x08u8, 0x40, 0, 0, 0, 0, 0, 0]);
    }
}

/// A command that does not exist is answered with an error, and so is one that needs
/// a ready drive while the drive is not ready.
pub proof fn law_refused_commands(s: CdState, cmd: int)
    requires
        s.wf(),
        s.stat == 0,
        s.irq_repeated == 0,
        s.irq == cmd,
    ensures
        ({
            let r = s.interrupted();
            let known = cmd == 1 || cmd == 2 || 6 <= cmd <= 17 || 19 <= cmd <= 22 || 25 <= cmd <= 28
                || cmd == 30;
            let patient = cmd == 1 || cmd == 14 || cmd == 15 || cmd == 25 || cmd == 28 || cmd == 10
                || cmd == 30;
            let busy = 1 <= s.drive_state <= 3;
            &&& 0 <= cmd < 0x100 && !known && !busy ==> responds(r, 5, 2) && r.result[0] == s.stat_p
                | 1 && r.result[1] == 0x40 && r.reading == s.reading && r.pending == s.pending
            &&& known && !patient && cmd != 8 && busy ==> responds(r, 5, 2) && r.result[1] == 0x80
            &&& known && patient && busy ==> r.stat == 3
        }),
{
}

/// What a command does as soon as it is written: it is busy, the old result is gone,
/// and its response falls due 0x800 cycles later. Reading commands and a pause stop a
/// reading, and the mode and the location are taken over.
pub proof fn law_command_written(s: CdState, cmd: u8)
    requires
        s.wf(),
        s.ctrl & 3 == 0,
        s.irq == 0,
    ensures
        ({
            let r = s.port_written(1, cmd);
            let stops = cmd == 6 || cmd == 27 || cmd == 9 || cmd == 28 || cmd == 10;
            let locates = cmd == 2 && s.param_c >= 3;
            &&& r.cmd == cmd
            &&& r.irq == cmd
            &&& r.result_ready == 0
            &&& r.ctrl == s.ctrl | 0x80
            &&& asks(s, r, CdIrqType::Command, 0x800)
            &&& r.reading == (s.reading && !stops)
            &&& r.play == (s.play && !stops)
            &&& r.mode == (if cmd == 14 {
                s.param[0]
            } else {
                s.mode
            })
            &&& r.setloc_pending == (s.setloc_pending || locates)
            &&& locates ==> r.set_sector[0] == s.param[0] && r.set_sector[1] == s.param[1]
                && r.set_sector[2] == s.param[2]
            &&& !locates ==> r.set_sector == s.set_sector
            &&& r.set_sector_play == s.set_sector_play
            &&& r.stat == s.stat
            &&& r.drive_state == s.drive_state
            &&& r.disc == s.disc
            &&& r.param == s.param
            &&& r.irq_repeated == s.irq_repeated
            &&& r.read == s.read
            &&& r.result == s.result
        }),
{
}

/// Parameters are taken in order, eight at most.
pub proof fn law_parameters(s: CdState, value: u8)
    requires
        s.wf(),
        s.ctrl & 3 == 0,
    ensures
        s.param_c < 8 ==> s.port_written(2, value) == (CdState {
            param: s.param.update(s.param_c as int, value),
            param_c: (s.param_c + 1) as u8,
            ..s
        }),
        s.param_c >= 8 ==> s.port_written(2, value) == s,
{
}

/// The result of a response is read byte by byte, in order; the last byte clears the
/// flag that says there is one, and reading on gives zeros.
pub proof fn law_result_bytes(s: CdState, k: nat)
    requires
        s.wf(),
        s.result_p == 0,
        1 <= s.result_c <= 16,
        s.result_ready == 1,
        k <= s.result_c,
    ensures
        ({
            let r = results_read(s, k);
            &&& r == (CdState {
                result_p: k as u8,
                result_ready: if k == s.result_c {
                    0
                } else {
                    1
                },
                ..s
            })
            &&& k < s.result_c ==> r.port(1) == s.result[k as int]
            &&& k == s.result_c && k < 16 ==> r.port(1) == 0
            &&& (r.port(0) & 0x20 != 0) == (k < s.result_c)
        }),
    decreases k,
{
    lemma_byte_of(k as u8, s.ctrl);
    if k > 0 {
        law_result_bytes(s, (k - 1) as nat);
    }
}

/// The state after `k` reads of the result port.
pub open spec fn results_read(s: CdState, k: nat) -> CdState
    decreases k,
{
    if k == 0 {
        s
    } else {
        results_read(s, (k - 1) as nat).port_read(1)
    }
}

/// The state once the host has acknowledged the response: index 1, all flags of the
/// response written to port 3, index 0 again.
pub open spec fn acknowledged(s: CdState) -> CdState {
    s.port_written(0, 1).port_written(3, 0x1F).port_written(0, 0)
}

proof fn lemma_acknowledged(s: CdState)
    requires
        s.wf(),
        s.stat <= 0x1F,
    ensures
        acknowledged(s) == (CdState {
            stat: 0,
            ctrl: acknowledged(s).ctrl,
            ..s
        }),
        acknowledged(s).ctrl & 3 == 0,
        acknowledged(s).ctrl & 0xFC == s.ctrl & 0xFC,
{
    lemma_byte_of(s.stat, s.ctrl);
}

/// The controller after a location has been set and a read command of either kind
/// given, each acknowledged once it has been answered.
pub open spec fn reading_from(s: CdState, m: u8, sec: u8, f: u8, cmd: u8) -> CdState {
    let a = s.port_written(2, m).port_written(2, sec).port_written(2, f).port_written(1, 2);
    let b = acknowledged(a.interrupted());
    acknowledged(b.port_written(1, cmd).interrupted())
}

/// A game reads a sector: it sets the location, gives a read command of either kind,
/// waits for the sector and asks for the data. What it gets is the user data of the
/// sector at that location.
pub proof fn law_sector_is_read(s: CdState, m: u8, sec: u8, f: u8, cmd: u8)
    requires
        s.wf(),
        s.ctrl & 3 == 0,
        s.stat == 0,
        s.irq == 0,
        s.irq_repeated == 0,
        s.param_c == 0,
        s.drive_state == 0,
        s.mode & 0x30 == 0,
        cmd == 6 || cmd == 27,
        msf_lba([m, sec, f]) * 2352 + 2352 <= s.disc.len(),
    ensures
        ({
            let r = reading_from(s, m, sec, f, cmd);
            let q = r.sector_read().port_written(3, 0x80);
            &&& r.reading
            &&& r.set_sector_play == [m, sec, f]
            &&& r.sector_read().stat == 1
            &&& Some(q.data_bytes(2048)) == s.user_data(msf_lba([m, sec, f]))
        }),
{
    lemma_byte_of(0, s.ctrl);
    let p1 = s.port_written(2, m);
    let p2 = p1.port_written(2, sec);
    let p3 = p2.port_written(2, f);
    assert(p3.param[0] == m && p3.param[1] == sec && p3.param[2] == f && p3.param_c == 3);
    let a = p3.port_written(1, 2);
    law_command_written(p3, 2);
    law_simple_commands(a, 2);
    let ai = a.interrupted();
    assert(ai.wf() && ai.disc == s.disc);
    lemma_acknowledged(ai);
    let b = acknowledged(ai);
    let d = b.port_written(1, cmd);
    law_command_written(b, cmd);
    law_read_command(d, cmd as int);
    let di = d.interrupted();
    assert(di.wf() && di.disc == s.disc);
    lemma_acknowledged(di);
    let r = acknowledged(di);
    assert(r.set_sector_play =~= [m, sec, f]);
    assert(r.mode == s.mode);
    law_sector_delivery(r);
}

/// While it reads, the drive goes on from sector to sector: each one that is
/// delivered asks for the next, one sector time later, half of it at double speed, or
/// thirty times as long after a change of location.
pub proof fn law_reading_goes_on(s: CdState)
    requires
        s.wf(),
        s.reading,
        s.irq == 0,
        s.stat == 0,
    ensures
        ({
            let r = s.sector_read();
            let base: int = if s.mode & 0x80 != 0 {
                225_792
            } else {
                451_584
            };
            &&& responds_keeping(s, r, 1, 1)
            &&& r.reading
            &&& r.ctrl == s.ctrl | 0x40
            &&& !r.read
            &&& !r.location_changed
            &&& r.stat_p == (s.stat_p | 0x22) & !0x40u8
            &&& r.result[0] == r.stat_p
            &&& asks(
                s,
                r,
                CdIrqType::Read,
                if s.location_changed {
                    base * 30
                } else {
                    base
                },
            )
        }),
{
    lemma_byte_of(0, 0);
}

pub open spec fn responds_keeping(s: CdState, r: CdState, kind: int, size: int) -> bool {
    r.stat == kind && r.result_c == size && r.result_p == 0 && r.result_ready == 1 && r.param_c
        == s.param_c
}

} // verus!
