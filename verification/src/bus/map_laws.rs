//! The memory map in numbers: what lies at which address, for reading and writing.

use crate::bits::{lemma_fields_of, lemma_half_of, lemma_parts_of};
use crate::bus::state::{hw_offset, physical, timer_register, BusState, HW_SIZE};
use crate::bus::transfer_laws::{half_at, lemma_word_at, word_at};
use crate::cdrom::CdState;
use crate::scheduler::{flagged, lemma_flag_update};
use crate::sio::SioState;
use crate::word::{le32, lemma_word_read_back, lemma_word_write_frame, put32};
use vstd::prelude::*;

verus! {

/// The part of an address that chooses what is accessed.
pub open spec fn place(addr: u32) -> int {
    addr as int % 0x2000_0000
}

/// Reading memory: main memory at the bottom, the scratchpad at 0x1F800000, the BIOS at
/// 0x1FC00000. Words are stored lowest byte first. Where there is nothing, bytes and
/// halfwords read as ones; words read as ones in the expansion area and as zero elsewhere.
pub proof fn law_memory_map(s: BusState, addr: u32)
    ensures
        ({
            let p = place(addr);
            let scratch = 0x1F80_0000 <= p < 0x1F80_0400;
            let bios = 0x1FC0_0000 <= p < 0x1FC8_0000;
            let expansion = 0x1F00_0000 <= p < 0x1F80_0000;
            let hardware = 0x1F80_1000 <= p < 0x1F80_3000;
            let nothing = p >= 0x20_0000 && !scratch && !bios && !hardware;
            &&& p < 0x20_0000 ==> s.byte(addr) == s.ram[p] && s.half(addr) == half_at(s.ram, p)
                && s.word(addr) == word_at(s.ram, p)
            &&& scratch ==> s.byte(addr) == s.scratchpad[p - 0x1F80_0000] && s.half(addr)
                == half_at(s.scratchpad, p - 0x1F80_0000) && s.word(addr) == word_at(
                s.scratchpad,
                p - 0x1F80_0000,
            )
            &&& bios ==> s.byte(addr) == s.bios[p - 0x1FC0_0000] && s.half(addr) == half_at(
                s.bios,
                p - 0x1FC0_0000,
            ) && s.word(addr) == word_at(s.bios, p - 0x1FC0_0000)
            &&& nothing ==> s.byte(addr) == 0xFF && s.half(addr) == 0xFFFF && s.word(addr) == (
            if expansion {
                0xFFFF_FFFFu32
            } else {
                0
            })
            &&& !hardware ==> s.byte_read(addr) == s && s.half_read(addr) == s && s.word_read(addr)
                == s
        }),
{
    lemma_fields_of(addr);
    reveal(BusState::byte);
    reveal(BusState::half);
    reveal(BusState::word);
    reveal(BusState::byte_read);
    reveal(BusState::half_read);
    reveal(BusState::word_read);
    let p = place(addr);
    lemma_word_at(s.ram, p);
    lemma_word_at(s.scratchpad, p - 0x1F80_0000);
    lemma_word_at(s.bios, p - 0x1FC0_0000);
}

/// Writing memory sets the bytes at the address, the lowest first, and nothing else.
pub proof fn law_memory_writes(s: BusState, addr: u32, b: u8, h: u16, w: u32)
    requires
        place(addr) < 0x20_0000,
    ensures
        ({
            let p = place(addr);
            &&& s.byte_written(addr, b) == (BusState { ram: s.ram.update(p, b), ..s })
            &&& s.half_written(addr, h) == (BusState {
                ram: s.ram.update(p, (h % 0x100) as u8).update(p + 1, (h / 0x100) as u8),
                ..s
            })
            &&& s.word_written(addr, w) == (BusState {
                ram: s.ram.update(p, (w % 0x100) as u8).update(
                    p + 1,
                    (w / 0x100 % 0x100) as u8,
                ).update(p + 2, (w / 0x1_0000 % 0x100) as u8).update(
                    p + 3,
                    (w / 0x100_0000) as u8,
                ),
                ..s
            })
        }),
{
    lemma_fields_of(addr);
    lemma_fields_of(w);
    reveal(BusState::byte_written);
    reveal(BusState::half_written);
    reveal(BusState::word_written);
    lemma_half_of(h, 0);
}

/// The same for the scratchpad.
pub proof fn law_scratchpad_writes(s: BusState, addr: u32, b: u8, w: u32)
    requires
        0x1F80_0000 <= place(addr) < 0x1F80_0400,
    ensures
        ({
            let p = place(addr) - 0x1F80_0000;
            &&& s.byte_written(addr, b) == (BusState { scratchpad: s.scratchpad.update(p, b), ..s })
            &&& s.word_written(addr, w) == (BusState {
                scratchpad: s.scratchpad.update(p, (w % 0x100) as u8).update(
                    p + 1,
                    (w / 0x100 % 0x100) as u8,
                ).update(p + 2, (w / 0x1_0000 % 0x100) as u8).update(
                    p + 3,
                    (w / 0x100_0000) as u8,
                ),
                ..s
            })
        }),
{
    lemma_fields_of(addr);
    lemma_fields_of(w);
    reveal(BusState::byte_written);
    reveal(BusState::word_written);
}

/// Reading the registers of the devices.
pub proof fn law_device_reads(s: BusState, addr: u32, i: int)
    requires
        0 <= i < 3,
    ensures
        ({
            let p = place(addr);
            let c = s.last_cycle;
            let t = s.timers.updated(c);
            &&& 0x1F80_1800 <= p <= 0x1F80_1803 ==> s.byte(addr) == s.cdrom.port(
                (p - 0x1F80_1800) as u32,
            ) && s.byte_read(addr).cdrom == s.cdrom.port_read((p - 0x1F80_1800) as u32)
            &&& p == 0x1F80_1040 ==> s.byte(addr) == s.sio.next_byte() && s.byte_read(addr).sio
                == s.sio.byte_read()
            &&& p == 0x1F80_1044 ==> s.word(addr) == s.sio.status && s.half(addr) == s.sio.status
                % 0x1_0000
            &&& p == 0x1F80_1048 ==> s.half(addr) == s.sio.mode
            &&& p == 0x1F80_104A ==> s.half(addr) == s.sio.control
            &&& p == 0x1F80_104E ==> s.half(addr) == s.sio.baud
            &&& p == 0x1F80_1810 ==> s.word(addr) == s.gpu.data_word() && s.word_read(addr).gpu
                == s.gpu.data_read()
            &&& p == 0x1F80_1814 ==> s.word(addr) == s.gpu.status.raw
            &&& p == 0x1F80_1100 + 16 * i ==> s.word(addr) == t.rcnts[i].value(c)
            &&& p == 0x1F80_1104 + 16 * i ==> s.word(addr) == t.rcnts[i].mode
            &&& p == 0x1F80_1108 + 16 * i ==> s.word(addr) == s.timers.rcnts[i].target
            &&& 0x1F80_1C00 <= p < 0x1F80_2000 ==> s.half(addr) == s.spu.reg(
                (p - 0x1F80_1C00) as u32,
            ) && s.half_read(addr).spu == s.spu.after_read((p - 0x1F80_1C00) as u32)
            &&& p == 0x1F80_1070 || p == 0x1F80_1074 || 0x1F80_1080 <= p < 0x1F80_1100
                ==> s.word(addr) == word_at(s.hw, p - 0x1F80_0000) && s.word_read(addr) == s
        }),
{
    lemma_fields_of(addr);
    lemma_fields_of(s.sio.status);
    reveal(BusState::byte);
    reveal(BusState::half);
    reveal(BusState::word);
    reveal(BusState::byte_read);
    reveal(BusState::half_read);
    reveal(BusState::word_read);
    lemma_word_at(s.hw, place(addr) - 0x1F80_0000);
}

/// Which register of the hardware area an address names.
proof fn lemma_place(addr: u32)
    ensures
        physical(addr) == place(addr),
        0x1F80_1000 <= place(addr) < 0x1F80_3000 ==> hw_offset(physical(addr)) == place(addr)
            - 0x1F80_0000,
{
    lemma_fields_of(addr);
}

/// Writing the ports of the CD-ROM controller and of the graphics processor.
pub proof fn law_device_writes(s: BusState, addr: u32, b: u8, w: u32)
    ensures
        ({
            let p = place(addr);
            &&& 0x1F80_1800 <= p <= 0x1F80_1803 ==> s.byte_written(addr, b).cdrom == (CdState {
                pending: Seq::empty(),
                ..s.cdrom.port_written((p - 0x1F80_1800) as u32, b)
            })
            &&& p == 0x1F80_1810 ==> s.word_written(addr, w) == (BusState { gpu: s.gpu.gp0(w), ..s
            })
            &&& p == 0x1F80_1814 ==> s.word_written(addr, w) == (BusState { gpu: s.gpu.gp1(w), ..s
            })
        }),
{
    lemma_place(addr);
    reveal(BusState::byte_written);
    reveal(BusState::word_written);
}

/// Writing the halfword registers of the serial port and of the sound processor.
pub proof fn law_halfword_writes(s: BusState, addr: u32, h: u16)
    ensures
        ({
            let p = place(addr);
            &&& p == 0x1F80_1048 ==> s.half_written(addr, h) == (BusState {
                sio: SioState { mode: h, ..s.sio },
                ..s
            })
            &&& p == 0x1F80_104E ==> s.half_written(addr, h) == (BusState {
                sio: SioState { baud: h, ..s.sio },
                ..s
            })
            &&& 0x1F80_1C00 <= p < 0x1F80_2000 ==> s.half_written(addr, h) == (BusState {
                spu: s.spu.written((p - 0x1F80_1C00) as u32, h),
                ..s
            })
        }),
{
    lemma_place(addr);
    reveal(BusState::half_written);
}

/// Writing the registers of the counters: the count, the mode and the target, 16 bytes
/// apart from counter to counter.
pub proof fn law_counter_writes(s: BusState, addr: u32, h: u16, w: u32, i: int)
    requires
        0 <= i < 3,
    ensures
        ({
            let p = place(addr);
            let c = s.last_cycle;
            let t = s.timers;
            &&& p == 0x1F80_1100 + 16 * i ==> s.half_written(addr, h).timers == t.counter_written(
                i,
                h as u32,
                c,
            ).drained() && s.word_written(addr, w).timers == t.counter_written(i, w, c).drained()
            &&& p == 0x1F80_1104 + 16 * i ==> s.half_written(addr, h).timers == t.mode_written(
                i,
                h as u32,
                c,
            ).drained() && s.word_written(addr, w).timers == t.mode_written(i, w, c).drained()
            &&& p == 0x1F80_1108 + 16 * i ==> s.half_written(addr, h).timers == t.target_written(
                i,
                h as u32,
                c,
            ).drained() && s.word_written(addr, w).timers == t.target_written(
                i,
                (w as int % 0x1_0000) as u32,
                c,
            ).drained()
        }),
{
    lemma_place(addr);
    assert(w & 0xFFFF == w as int % 0x1_0000) by {
        lemma_fields_of(w);
    }
    let p = place(addr);
    if p == 0x1F80_1100 + 16 * i || p == 0x1F80_1104 + 16 * i || p == 0x1F80_1108 + 16 * i {
        let off = hw_offset(physical(addr));
        lemma_counter_register(off, i);
        assert(s.half_written(addr, h) == s.hw_half_written(off, h)) by {
            reveal(BusState::half_written);
        }
        assert(s.word_written(addr, w) == s.hw_word_written(off, w)) by {
            reveal(BusState::word_written);
        }
    }
}

proof fn lemma_counter_register(off: u32, i: int)
    requires
        0 <= i < 3,
        off == 0x1100 + 16 * i || off == 0x1104 + 16 * i || off == 0x1108 + 16 * i,
    ensures
        timer_register(off) == Some((i, (off - 0x1100 - 16 * i) as u32)),
{
}

/// A register that only stores gives back what was written to it.
pub proof fn law_stored_registers(s: BusState, addr: u32, w: u32)
    requires
        s.wf(),
        place(addr) % 4 == 0,
        place(addr) == 0x1F80_1074 || place(addr) == 0x1F80_10F0 || 0x1F80_1000 <= place(addr)
            < 0x1F80_1040 || 0x1F80_1050 <= place(addr) < 0x1F80_1070 || (0x1F80_1080 <= place(addr)
            < 0x1F80_10F0 && place(addr) % 16 != 8),
    ensures
        s.word_written(addr, w).word(addr) == w,
{
    lemma_place(addr);
    let off = hw_offset(physical(addr));
    assert(s.word_written(addr, w) == s.with_reg32(off, w)) by {
        reveal(BusState::word_written);
    }
    assert(s.with_reg32(off, w).word(addr) == le32(put32(s.hw, off as int, w), off as int)) by {
        reveal(BusState::word);
    }
    lemma_word_read_back(s.hw, off as int, 0, w);
}

/// The events of the scheduler: the serial port and the CD-ROM raise their interrupt
/// lines, finished channels are marked, and the other slots do nothing.
pub proof fn law_event_slots(s: BusState, i: u32, line: u32)
    requires
        s.wf(),
        i < 16,
        line < 32,
    ensures
        ({
            let e = s.event(i);
            let c = s.cdrom;
            &&& i == 0 ==> flagged(e.istat(), line) == (line == 7 || flagged(s.istat(), line))
                && e.sio == (SioState { status: s.sio.status | 0x200, ..s.sio })
            &&& i == 2 ==> e.cdrom == (CdState { pending: Seq::empty(), ..c.interrupted() })
                && flagged(e.istat(), line) == (line == 2 && c.stat == 0 && c.interrupted().stat
                & c.interrupted().reg2 != 0 || flagged(s.istat(), line))
            &&& i == 3 ==> e.cdrom == (CdState { pending: Seq::empty(), ..c.sector_read() })
            &&& i == 13 ==> e.cdrom == (CdState { pending: Seq::empty(), ..c.lid_stepped() })
            &&& i != 0 && i != 2 && i != 3 && i != 4 && i != 9 && i != 13 ==> e == s
            &&& i == 4 || i == 9 ==> e.ram == s.ram && e.gpu == s.gpu && e.cdrom == s.cdrom && e.sio
                == s.sio && e.spu == s.spu && e.timers == s.timers && e.scheduler == s.scheduler
        }),
{
    lemma_word_read_back(s.hw, 0x1070, 0, s.istat() | (1u32 << 7u32));
    lemma_word_read_back(s.hw, 0x1070, 0, s.istat() | (1u32 << 2u32));
    lemma_flag_update(s.istat(), 7, line);
    lemma_flag_update(s.istat(), 2, line);
}

/// A finished channel: its trigger bit is cleared, its other bits stay.
pub proof fn law_channel_trigger(s: BusState, ch: int)
    requires
        s.wf(),
        0 <= ch <= 6,
    ensures
        ({
            let at = 0x1088 + 16 * ch;
            let before = word_at(s.hw, at);
            let after = word_at(s.channel_done(ch).hw, at);
            after == before - before / 0x100_0000 % 2 * 0x100_0000
        }),
{
    let at = 0x1088 + 16 * ch;
    let before = le32(s.hw, at);
    lemma_word_at(s.hw, at);
    lemma_word_at(s.channel_done(ch).hw, at);
    let v = before & !0x0100_0000u32;
    lemma_word_read_back(s.hw, at, 0, v);
    let h1 = put32(s.hw, at, v);
    let d = s.channel_done(ch);
    lemma_parts_of(before);
    assert forall|x: u32| le32(#[trigger] put32(h1, 0x10F4, x), at) == v by {
        lemma_word_write_frame(h1, 0x10F4, x, at);
    }
    assert forall|x: u32, y: u32|
        le32(#[trigger] put32(put32(h1, 0x10F4, x), 0x1070, y), at) == v by {
        lemma_word_write_frame(put32(h1, 0x10F4, x), 0x1070, y, at);
        assert(le32(put32(h1, 0x10F4, x), at) == v);
    }
}

/// What a channel does when its control register is written: from `t`, in which the
/// register holds `chcr`, to `d`. It runs if the word has the trigger bit and the control
/// register of all channels, `dpcr`, enables it. It then works on the words from the
/// address in `madr`, as many as `bcr` says. Otherwise nothing moves.
#[verifier::opaque]
pub open spec fn starts(
    t: BusState,
    d: BusState,
    ch: int,
    chcr: u32,
    madr: u32,
    bcr: u32,
    dpcr: u32,
) -> bool {
    let from = (madr as int / 4 * 4 % 0x20_0000) as u32;
    let weight: int = if ch == 2 {
        0x800
    } else if ch == 3 {
        0x8000
    } else if ch == 4 {
        0x8_0000
    } else {
        0x800_0000
    };
    let runs = chcr as int / 0x100_0000 % 2 == 1 && dpcr as int / weight % 2 == 1;
    &&& !runs ==> d == t
    &&& runs && ch == 2 ==> d == t.dma_gpu(from, bcr, chcr)
    &&& runs && ch == 3 ==> d == t.dma_cdrom(from, bcr, chcr)
    &&& runs && ch == 4 ==> d == t.dma_spu(from, bcr, chcr)
    &&& runs && ch == 6 ==> d == t.dma_otc(from, bcr)
}

/// A write of a channel's control register starts the channel, on the address and the
/// block register it finds.
pub proof fn law_channel_start(s: BusState, ch: int, chcr: u32)
    requires
        s.wf(),
        ch == 2 || ch == 3 || ch == 4 || ch == 6,
    ensures
        starts(
            BusState { hw: put32(s.hw, 0x1088 + 16 * ch, chcr), ..s },
            s.word_written((0x1F80_1088 + 16 * ch) as u32, chcr),
            ch,
            chcr,
            word_at(s.hw, 0x1080 + 16 * ch),
            word_at(s.hw, 0x1084 + 16 * ch),
            word_at(s.hw, 0x10F0),
        ),
{
    lemma_channel_registers(s.hw, 0x1088 + 16 * ch, chcr);
    lemma_channel_started(
        s,
        ch,
        chcr,
        word_at(s.hw, 0x1080 + 16 * ch),
        word_at(s.hw, 0x1084 + 16 * ch),
        word_at(s.hw, 0x10F0),
    );
}

proof fn lemma_channel_started(
    s: BusState,
    ch: int,
    chcr: u32,
    madr: u32,
    bcr: u32,
    dpcr: u32,
)
    requires
        ch == 2 || ch == 3 || ch == 4 || ch == 6,
        le32(put32(s.hw, 0x1088 + 16 * ch, chcr), 0x1080 + 16 * ch) == madr,
        le32(put32(s.hw, 0x1088 + 16 * ch, chcr), 0x1084 + 16 * ch) == bcr,
        le32(put32(s.hw, 0x1088 + 16 * ch, chcr), 0x10F0) == dpcr,
    ensures
        starts(
            BusState { hw: put32(s.hw, 0x1088 + 16 * ch, chcr), ..s },
            s.word_written((0x1F80_1088 + 16 * ch) as u32, chcr),
            ch,
            chcr,
            madr,
            bcr,
            dpcr,
        ),
{
    let t = BusState { hw: put32(s.hw, 0x1088 + 16 * ch, chcr), ..s };
    lemma_channel_written(s, ch, chcr);
    lemma_channel_run(t, ch, chcr, madr, bcr, dpcr);
}

proof fn lemma_channel_written(s: BusState, ch: int, chcr: u32)
    requires
        0 <= ch <= 6,
    ensures
        s.word_written((0x1F80_1088 + 16 * ch) as u32, chcr) == (BusState {
            hw: put32(s.hw, 0x1088 + 16 * ch, chcr),
            ..s
        }).dma_run(ch, chcr),
{
    let addr = (0x1F80_1088 + 16 * ch) as u32;
    assert(hw_offset(physical(addr)) == 0x1088 + 16 * ch && physical(addr) == addr) by {
        lemma_place(addr);
    }
    reveal(BusState::word_written);
}

proof fn lemma_channel_registers(hw: Seq<u8>, at: int, chcr: u32)
    requires
        hw.len() == HW_SIZE,
        0x1088 <= at <= 0x10E8,
    ensures
        word_at(hw, at - 8) == le32(hw, at - 8),
        word_at(hw, at - 4) == le32(hw, at - 4),
        word_at(hw, 0x10F0) == le32(hw, 0x10F0),
        le32(put32(hw, at, chcr), at - 8) == le32(hw, at - 8),
        le32(put32(hw, at, chcr), at - 4) == le32(hw, at - 4),
        le32(put32(hw, at, chcr), 0x10F0) == le32(hw, 0x10F0),
{
    lemma_word_at(hw, at - 8);
    lemma_word_at(hw, at - 4);
    lemma_word_at(hw, 0x10F0);
    lemma_word_write_frame(hw, at, chcr, at - 8);
    lemma_word_write_frame(hw, at, chcr, at - 4);
    lemma_word_write_frame(hw, at, chcr, 0x10F0);
}

proof fn lemma_channel_run(t: BusState, ch: int, chcr: u32, madr: u32, bcr: u32, dpcr: u32)
    requires
        ch == 2 || ch == 3 || ch == 4 || ch == 6,
        le32(t.hw, 0x1080 + 16 * ch) == madr,
        le32(t.hw, 0x1084 + 16 * ch) == bcr,
        le32(t.hw, 0x10F0) == dpcr,
    ensures
        starts(t, t.dma_run(ch, chcr), ch, chcr, madr, bcr, dpcr),
{
    reveal(starts);
    lemma_enable_bits(dpcr, chcr, madr);
    if ch == 2 {
    } else if ch == 3 {
    } else if ch == 4 {
    } else {
    }
}

proof fn lemma_enable_bits(d: u32, c: u32, m: u32)
    ensures
        d & (8u32 << 8u32) != 0 <==> d / 0x800 % 2 == 1,
        d & (8u32 << 12u32) != 0 <==> d / 0x8000 % 2 == 1,
        d & (8u32 << 16u32) != 0 <==> d / 0x8_0000 % 2 == 1,
        d & (8u32 << 24u32) != 0 <==> d / 0x800_0000 % 2 == 1,
        c & 0x0100_0000 == 0 <==> c / 0x100_0000 % 2 == 0,
        m & 0x1F_FFFC == m / 4 * 4 % 0x20_0000,
{
    assert(c & 0x0100_0000 == 0 <==> c / 0x100_0000 % 2 == 0) by {
        lemma_parts_of(c);
    }
    lemma_parts_of(d);
    crate::bus::dma::lemma_register_parts(m);
}

} // verus!
