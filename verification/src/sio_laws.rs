//! Laws of the serial port in numbers: pads, other devices, and the control register.

use crate::sio::{bytes_written, law_pad_poll, PadButton, PadButtons, SioState};
use vstd::prelude::*;

verus! {

/// The bits that a button can have.
proof fn lemma_button_bit(p: u16, i: u16)
    by (bit_vector)
    requires
        i < 16,
    ensures
        p & (1u16 << i) == 0 <==> (p >> i) & 1 == 0,
        (p >> 0u32) & 1 == p % 2,
        (p >> 3u32) & 1 == p / 8 % 2,
        (p >> 4u32) & 1 == p / 16 % 2,
        (p >> 5u32) & 1 == p / 32 % 2,
        (p >> 6u32) & 1 == p / 64 % 2,
        (p >> 7u32) & 1 == p / 128 % 2,
        (p >> 12u32) & 1 == p / 4096 % 2,
        (p >> 13u32) & 1 == p / 8192 % 2,
        (p >> 14u32) & 1 == p / 16384 % 2,
        (p >> 15u32) & 1 == p / 32768 % 2,
        ((p & 0xFF) as u8) as u16 == p % 256,
        ((p >> 8u32) as u8) as u16 == p / 256,
{
}

/// A pressed button shows as a zero in its place: the select and start buttons and the
/// directions in the low byte, the shapes at the top of the high one.
pub proof fn law_button_places(pad: PadButtons)
    ensures
        pad.is_pressed(PadButton::Select) <==> pad.0 % 2 == 0,
        pad.is_pressed(PadButton::Start) <==> pad.0 / 8 % 2 == 0,
        pad.is_pressed(PadButton::Up) <==> pad.0 / 16 % 2 == 0,
        pad.is_pressed(PadButton::Right) <==> pad.0 / 32 % 2 == 0,
        pad.is_pressed(PadButton::Down) <==> pad.0 / 64 % 2 == 0,
        pad.is_pressed(PadButton::Left) <==> pad.0 / 128 % 2 == 0,
        pad.is_pressed(PadButton::Triangle) <==> pad.0 / 4096 % 2 == 0,
        pad.is_pressed(PadButton::Circle) <==> pad.0 / 8192 % 2 == 0,
        pad.is_pressed(PadButton::Cross) <==> pad.0 / 16384 % 2 == 0,
        pad.is_pressed(PadButton::Square) <==> pad.0 / 32768 % 2 == 0,
{
    let p = pad.0;
    lemma_button_bit(p, 0);
    lemma_button_bit(p, 3);
    lemma_button_bit(p, 4);
    lemma_button_bit(p, 5);
    lemma_button_bit(p, 6);
    lemma_button_bit(p, 7);
    lemma_button_bit(p, 12);
    lemma_button_bit(p, 13);
    lemma_button_bit(p, 14);
    lemma_button_bit(p, 15);
}

/// The flags of the control and status registers.
proof fn lemma_control_bits(c: u16)
    by (bit_vector)
    ensures
        c & 0x0001 != 0 <==> c % 2 == 1,
        c & 0x0002 != 0 <==> c / 2 % 2 == 1,
        c & 0x0002 == 0 <==> c / 2 % 2 == 0,
        c & 0x0010 != 0 <==> c / 16 % 2 == 1,
        c & 0x0040 != 0 <==> c / 64 % 2 == 1,
        c & 0x0400 != 0 <==> c / 0x400 % 2 == 1,
        c & 0x0800 != 0 <==> c / 0x800 % 2 == 1,
        c & 0x1000 != 0 <==> c / 0x1000 % 2 == 1,
        c & 0x2000 != 0 <==> c / 0x2000 % 2 == 1,
        c & 0x2000 == 0 <==> c / 0x2000 % 2 == 0,
        (c >> 8u32) & 3 == c / 0x100 % 4,
        c & 0x0010 == 0 ==> c & !0x0010u16 == c,
        c & 0x0010 != 0 ==> (c & !0x0010u16) + 16 == c,
        (c & !0x0010u16) & 0x40 == c & 0x40,
        (c & !0x0010u16) & 0x400 == c & 0x400,
{
}

proof fn lemma_status_bits(s: u32)
    by (bit_vector)
    ensures
        s & 4 != 0 <==> s / 4 % 2 == 1,
        s & 0x200 == 0 <==> s / 0x200 % 2 == 0,
        (s & !1u32) & 4 == s & 4,
        (s & !1u32) & 1 == 0,
        (((s & !1u32) & !4u32) | 2) & 0x200 == s & 0x200,
        (((s & !1u32) & !4u32) & !2u32) & 0x200 == s & 0x200,
        1u32 | 4u32 == 5u32,
        5u32 & !2u32 == 5u32,
{
}

proof fn lemma_control_flags(c: u16, s: u32)
    ensures
        c & 0x0001 != 0 <==> c % 2 == 1,
        c & 0x0002 != 0 <==> c / 2 % 2 == 1,
        c & 0x0002 == 0 <==> c / 2 % 2 == 0,
        c & 0x0010 != 0 <==> c / 16 % 2 == 1,
        c & 0x0040 != 0 <==> c / 64 % 2 == 1,
        c & 0x0400 != 0 <==> c / 0x400 % 2 == 1,
        c & 0x0800 != 0 <==> c / 0x800 % 2 == 1,
        c & 0x1000 != 0 <==> c / 0x1000 % 2 == 1,
        c & 0x2000 != 0 <==> c / 0x2000 % 2 == 1,
        c & 0x2000 == 0 <==> c / 0x2000 % 2 == 0,
        (c >> 8u32) & 3 == c / 0x100 % 4,
        c & 0x0010 == 0 ==> c & !0x0010u16 == c,
        c & 0x0010 != 0 ==> (c & !0x0010u16) + 16 == c,
        (c & !0x0010u16) & 0x40 == c & 0x40,
        (c & !0x0010u16) & 0x400 == c & 0x400,
        s & 4 != 0 <==> s / 4 % 2 == 1,
        s & 0x200 == 0 <==> s / 0x200 % 2 == 0,
        (s & !1u32) & 4 == s & 4,
        (s & !1u32) & 1 == 0,
        (((s & !1u32) & !4u32) | 2) & 0x200 == s & 0x200,
        (((s & !1u32) & !4u32) & !2u32) & 0x200 == s & 0x200,
        1u32 | 4u32 == 5u32,
        5u32 & !2u32 == 5u32,
{
    lemma_control_bits(c);
    lemma_status_bits(s);
}

/// Whether a byte that is written goes out at once: the transmitter is enabled and free.
pub open spec fn sends(s: SioState) -> bool {
    s.control % 2 == 1 && s.status / 4 % 2 == 1
}

/// Whether a pad is in the chosen port, the second if bit 13 of the control register is set.
pub open spec fn pad_in_port(s: SioState) -> bool {
    if s.control / 0x2000 % 2 == 1 {
        s.pad2_connected
    } else {
        s.pad1_connected
    }
}

/// The buttons of the chosen port.
pub open spec fn buttons_of(s: SioState) -> u16 {
    if s.control / 0x2000 % 2 == 1 {
        s.pad2.0
    } else {
        s.pad1.0
    }
}

/// The cycles that a byte takes: eight times the baud value, of which zero counts as one.
pub open spec fn byte_time(s: SioState) -> int {
    if s.baud == 0 {
        8
    } else {
        8 * s.baud as int
    }
}

/// Polling a pad gives its identity and the buttons of the chosen port, the low byte
/// first.
pub proof fn law_poll(s: SioState, a: u8, b: u8, c: u8)
    requires
        s.wf(),
        sends(s),
        s.device == 0,
        s.pad_state == 0,
        pad_in_port(s),
    ensures
        bytes_written(s, seq![0x01u8, 0x42u8, a, b, c]).fifo == s.fifo + seq![
            0xFFu8,
            0x41u8,
            0x5Au8,
            (buttons_of(s) as int % 256) as u8,
            (buttons_of(s) as int / 256) as u8,
        ],
{
    lemma_control_flags(s.control, s.status);
    lemma_button_bit(buttons_of(s), 0);
    law_pad_poll(s, (a, b, c));
}

/// The first byte after a selection chooses the device. A pad that is there takes it up
/// and, if bit 12 of the control register asks for that, interrupts once the byte has
/// gone out. A port without a pad, a memory card and an unknown device answer 0xFF
/// without an interrupt, and what is sent to a memory card after that is ignored.
pub proof fn law_addressed(s: SioState, address: u8)
    requires
        s.wf(),
        sends(s),
        s.device == 0,
        s.pad_state == 0,
        s.buffer_index == 0,
        s.control / 0x800 % 2 == 0,
    ensures
        ({
            let r = s.byte_written(address);
            &&& r.fifo == s.fifo.push(0xFF)
            &&& address == 1 && pad_in_port(s) ==> r.device == 1 && r.pad_state == 1
            &&& address == 1 && pad_in_port(s) && s.control / 0x1000 % 2 == 1 ==> r.pending_irq
                && r.pending_irq_delay == byte_time(s)
            &&& address == 1 && pad_in_port(s) && s.control / 0x1000 % 2 == 0 ==> r.pending_irq
                == s.pending_irq
            &&& address == 1 && !pad_in_port(s) ==> r.pad_state == 0 && r.pending_irq
                == s.pending_irq
            &&& address == 0x81 ==> r.device == 0xFF && r.pending_irq == s.pending_irq
            &&& address != 1 && address != 0x81 && address != 0xFF ==> r.device == 0 && r.pending_irq
                == s.pending_irq
        }),
{
    lemma_control_flags(s.control, s.status);
}

/// A pad knows one command, 0x42. It answers that with its identity and reports its
/// buttons next; any other it answers with 0xFF, and ignores what follows.
pub proof fn law_pad_command(s: SioState, command: u8)
    requires
        s.wf(),
        sends(s),
        s.device == 1,
        s.pad_state == 1,
        s.control / 0x800 % 2 == 0,
    ensures
        ({
            let r = s.byte_written(command);
            &&& command == 0x42 ==> r.fifo == s.fifo.push(0x41) && r.pad_state == 2 && r.device == 1
                && r.buffer[2] == 0x5A && r.buffer[3] == buttons_of(s) as int % 256 && r.buffer[4]
                == buttons_of(s) as int / 256
            &&& command == 0x42 && s.control / 0x1000 % 2 == 1 ==> r.pending_irq
                && r.pending_irq_delay == byte_time(s)
            &&& command != 0x42 ==> r.fifo == s.fifo.push(0xFF) && r.device == 0xFF && r.pad_state
                == 0 && r.pending_irq == s.pending_irq
        }),
{
    lemma_control_flags(s.control, s.status);
    lemma_button_bit(buttons_of(s), 0);
}

/// What is sent to an ignored device is answered with 0xFF and nothing else happens.
pub proof fn law_ignored(s: SioState, value: u8)
    requires
        s.wf(),
        sends(s),
        s.device == 0xFF,
        s.control / 0x800 % 2 == 0,
    ensures
        s.byte_written(value).fifo == s.fifo.push(0xFF),
        s.byte_written(value).device == 0xFF,
        s.byte_written(value).pad_state == s.pad_state,
        s.byte_written(value).pending_irq == s.pending_irq,
{
    lemma_control_flags(s.control, s.status);
}

/// A byte that is written while the transmitter is off or busy is kept, and nothing is
/// received.
pub proof fn law_not_sent(s: SioState, value: u8)
    requires
        !sends(s),
    ensures
        s.byte_written(value).data == value,
        s.byte_written(value).fifo == s.fifo,
        s.byte_written(value).device == s.device,
        s.byte_written(value).pad_state == s.pad_state,
{
    lemma_control_flags(s.control, s.status);
}

/// Received bytes interrupt, with bit 11 of the control register set, once there are as
/// many as its bits 8 and 9 ask for: one, two, four or eight.
pub proof fn law_receive_interrupt(s: SioState, value: u8)
    requires
        s.wf(),
        sends(s),
        s.device == 0xFF,
        s.status / 0x200 % 2 == 0,
        s.control / 0x800 % 2 == 1,
    ensures
        ({
            let r = s.byte_written(value);
            let wanted: int = if s.control / 0x100 % 4 == 0 {
                1
            } else if s.control / 0x100 % 4 == 1 {
                2
            } else if s.control / 0x100 % 4 == 2 {
                4
            } else {
                8
            };
            &&& s.fifo.len() + 1 >= wanted ==> r.pending_irq && r.pending_irq_delay == byte_time(s)
            &&& s.fifo.len() + 1 < wanted ==> r.pending_irq == s.pending_irq
        }),
{
    lemma_control_flags(s.control, s.status);
}

/// Writing the control register. A reset empties what has been received, leaves the
/// transmitter free and drops a pending interrupt; a reset and the end of a selection
/// both end the exchange with the device.
pub proof fn law_control(s: SioState, value: u16)
    ensures
        ({
            let r = s.controlled(value);
            let reset = value / 64 % 2 == 1;
            let dropped = s.control / 2 % 2 == 1 && value / 2 % 2 == 0;
            let changed = s.control / 0x2000 % 2 == 1 && value / 0x2000 % 2 == 0;
            &&& r.control == value as int - value as int / 16 % 2 * 16
            &&& reset ==> r.fifo.len() == 0 && !r.pending_irq
            &&& reset && value / 0x400 % 2 == 0 ==> r.status == 5
            &&& !reset ==> r.fifo == s.fifo
            &&& reset || dropped || changed ==> r.device == 0 && r.pad_state == 0 && r.buffer_index
                == 0
            &&& !reset && !dropped && !changed ==> r.device == s.device && r.pad_state
                == s.pad_state && r.buffer_index == s.buffer_index
            &&& r.pad1 == s.pad1 && r.pad2 == s.pad2 && r.pad1_connected == s.pad1_connected
                && r.pad2_connected == s.pad2_connected && r.mode == s.mode && r.baud == s.baud
        }),
{
    lemma_control_flags(s.control, s.status);
    lemma_control_flags(value, s.status);
}

} // verus!
