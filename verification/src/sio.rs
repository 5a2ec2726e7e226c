//! The serial port at 0x1F801040 with the digital pads behind it.
//!
//! Memory cards are not emulated: a card address is answered like an empty slot.

use crate::text::{decimal_text, hex_text, push_decimal, push_hex, push_text, text_of};
use std::collections::VecDeque;
use vstd::prelude::*;

verus! {

pub const TX_DATACLEAR: u32 = 0x0001;

pub const RX_FIFONOTEMPTY: u32 = 0x0002;

pub const TX_FINISHED: u32 = 0x0004;

pub const RX_PARITYERR: u32 = 0x0008;

pub const IRQ_FLAG: u32 = 0x0200;

pub const TX_ENABLE: u16 = 0x0001;

pub const SELECT_ENABLE: u16 = 0x0002;

pub const RESET_ERR: u16 = 0x0010;

pub const RESET: u16 = 0x0040;

pub const TX_IRQEN: u16 = 0x0400;

pub const RX_IRQEN: u16 = 0x0800;

pub const ACK_IRQEN: u16 = 0x1000;

pub const WHICH_PORT: u16 = 0x2000;

pub const PAD_STATE_IDLE: u32 = 0;

pub const PAD_STATE_READ_COMMAND: u32 = 1;

pub const PAD_STATE_READ_DATA: u32 = 2;

pub const DEVICE_NONE: u8 = 0;

pub const DEVICE_PAD: u8 = 0x01;

pub const DEVICE_MEMCARD: u8 = 0x81;

pub const DEVICE_IGNORE: u8 = 0xFF;

/// The buttons of a digital pad, one bit each; a pressed button is 0.
#[derive(Clone, Copy)]
pub struct PadButtons(pub u16);

/// A button of a digital pad. The order fixes each button's bit.
#[derive(Clone, Copy)]
pub enum PadButton {
    Select,
    L3,
    R3,
    Start,
    Up,
    Right,
    Down,
    Left,
    L2,
    R2,
    L1,
    R1,
    Triangle,
    Circle,
    Cross,
    Square,
}

impl PadButton {
    /// The bit of this button.
    pub open spec fn bit(self) -> u16 {
        match self {
            PadButton::Select => 0,
            PadButton::L3 => 1,
            PadButton::R3 => 2,
            PadButton::Start => 3,
            PadButton::Up => 4,
            PadButton::Right => 5,
            PadButton::Down => 6,
            PadButton::Left => 7,
            PadButton::L2 => 8,
            PadButton::R2 => 9,
            PadButton::L1 => 10,
            PadButton::R1 => 11,
            PadButton::Triangle => 12,
            PadButton::Circle => 13,
            PadButton::Cross => 14,
            PadButton::Square => 15,
        }
    }

    /// The bit of this button.
    pub fn index(self) -> (r: u16)
        ensures
            r == self.bit(),
            r < 16,
    {
        match self {
            PadButton::Select => 0,
            PadButton::L3 => 1,
            PadButton::R3 => 2,
            PadButton::Start => 3,
            PadButton::Up => 4,
            PadButton::Right => 5,
            PadButton::Down => 6,
            PadButton::Left => 7,
            PadButton::L2 => 8,
            PadButton::R2 => 9,
            PadButton::L1 => 10,
            PadButton::R1 => 11,
            PadButton::Triangle => 12,
            PadButton::Circle => 13,
            PadButton::Cross => 14,
            PadButton::Square => 15,
        }
    }
}

impl PadButtons {
    /// Whether the button is held down.
    pub open spec fn is_pressed(self, btn: PadButton) -> bool {
        self.0 & (1u16 << btn.bit()) == 0
    }

    /// The buttons with one of them pressed or released.
    pub open spec fn with(self, btn: PadButton, pressed: bool) -> PadButtons {
        if pressed {
            PadButtons(self.0 & !(1u16 << btn.bit()))
        } else {
            PadButtons(self.0 | (1u16 << btn.bit()))
        }
    }

    /// All buttons released.
    pub fn new() -> (r: Self)
        ensures
            r == PadButtons(0xFFFF),
    {
        PadButtons(0xFFFF)
    }

    /// Presses or releases a button.
    pub fn set_pressed(&mut self, btn: PadButton, pressed: bool)
        ensures
            *final(self) == old(self).with(btn, pressed),
    {
        let bit: u16 = btn.index();
        if pressed {
            self.0 = self.0 & !(1u16 << bit);
        } else {
            self.0 = self.0 | (1u16 << bit);
        }
    }
}

/// A button reads as it was set, and the others are untouched.
pub proof fn law_set_pressed(pad: PadButtons, btn: PadButton, pressed: bool, other: PadButton)
    ensures
        pad.with(btn, pressed).is_pressed(other) == (if other == btn {
            pressed
        } else {
            pad.is_pressed(other)
        }),
{
    let (p, i, j) = (pad.0, btn.bit(), other.bit());
    assert(i < 16 && j < 16 ==> ((p & !(1u16 << i)) & (1u16 << j) == 0) == (i == j || p & (1u16
        << j) == 0) && ((p | (1u16 << i)) & (1u16 << j) == 0) == (i != j && p & (1u16 << j) == 0))
        by (bit_vector);
}

/// The serial port.
pub struct Sio {
    pub status: u32,
    pub mode: u16,
    pub control: u16,
    pub baud: u16,
    pub data: u8,
    pub rx_fifo: VecDeque<u8>,
    pub pad_state: u32,
    pub current_device: u8,
    pub buffer: [u8; 256],
    pub buffer_index: u32,
    pub max_buffer_index: u32,
    pub pad1: PadButtons,
    pub pad2: PadButtons,
    pub pad1_connected: bool,
    pub pad2_connected: bool,
    pub pending_irq: bool,
    pub pending_irq_delay: u32,
}

/// The state of the serial port.
pub struct SioState {
    pub status: u32,
    pub mode: u16,
    pub control: u16,
    pub baud: u16,
    pub data: u8,
    /// The received bytes that have not been read yet.
    pub fifo: Seq<u8>,
    pub pad_state: u32,
    pub device: u8,
    pub buffer: Seq<u8>,
    pub buffer_index: u32,
    pub max_buffer_index: u32,
    pub pad1: PadButtons,
    pub pad2: PadButtons,
    pub pad1_connected: bool,
    pub pad2_connected: bool,
    pub pending_irq: bool,
    pub pending_irq_delay: u32,
}

impl View for Sio {
    type V = SioState;

    open spec fn view(&self) -> SioState {
        SioState {
            status: self.status,
            mode: self.mode,
            control: self.control,
            baud: self.baud,
            data: self.data,
            fifo: self.rx_fifo@,
            pad_state: self.pad_state,
            device: self.current_device,
            buffer: self.buffer@,
            buffer_index: self.buffer_index,
            max_buffer_index: self.max_buffer_index,
            pad1: self.pad1,
            pad2: self.pad2,
            pad1_connected: self.pad1_connected,
            pad2_connected: self.pad2_connected,
            pending_irq: self.pending_irq,
            pending_irq_delay: self.pending_irq_delay,
        }
    }
}

/// The received bytes it takes to raise a receive interrupt, by interrupt mode.
pub open spec fn rx_threshold(mode: u16) -> nat {
    if mode == 0 {
        1
    } else if mode == 1 {
        2
    } else if mode == 2 {
        4
    } else {
        8
    }
}

impl SioState {
    /// The state after power-on: one pad in port 1, all buttons released.
    pub open spec fn initial() -> SioState {
        SioState {
            status: TX_DATACLEAR | TX_FINISHED,
            mode: 0,
            control: 0,
            baud: 0,
            data: 0,
            fifo: Seq::empty(),
            pad_state: PAD_STATE_IDLE,
            device: DEVICE_NONE,
            buffer: Seq::new(256, |i: int| 0u8),
            buffer_index: 0,
            max_buffer_index: 0,
            pad1: PadButtons(0xFFFF),
            pad2: PadButtons(0xFFFF),
            pad1_connected: true,
            pad2_connected: false,
            pending_irq: false,
            pending_irq_delay: 0,
        }
    }

    /// The response buffer has its size, the position stays inside the five
    /// bytes of a pad response, and more of it is to come while data is read.
    pub open spec fn wf(self) -> bool {
        &&& self.buffer.len() == 256
        &&& self.buffer_index <= 4
        &&& self.max_buffer_index <= 4
        &&& self.pad_state == PAD_STATE_READ_DATA ==> self.buffer_index < self.max_buffer_index
    }

    /// The cycles one byte takes on the line.
    pub open spec fn byte_cycles(self) -> u32 {
        ((if self.baud == 0 {
            1int
        } else {
            self.baud as int
        }) * 8) as u32
    }

    /// The state with an interrupt asked for once a byte has gone through.
    pub open spec fn irq_asked(self) -> SioState {
        SioState { pending_irq: true, pending_irq_delay: self.byte_cycles(), ..self }
    }

    /// The state after the device has acknowledged a byte.
    pub open spec fn acknowledged(self) -> SioState {
        if self.control & TX_ENABLE != 0 && self.control & ACK_IRQEN != 0 {
            self.irq_asked()
        } else {
            self
        }
    }

    /// Whether a byte waits and may be sent.
    pub open spec fn transmit_ready(self) -> bool {
        &&& self.control & TX_ENABLE != 0
        &&& self.status & TX_FINISHED != 0
        &&& self.status & TX_DATACLEAR == 0
    }

    /// Whether enough bytes have been received for a receive interrupt.
    pub open spec fn receive_irq_ready(self) -> bool {
        &&& self.control & RX_IRQEN != 0
        &&& self.fifo.len() >= rx_threshold((self.control >> 8) & 3)
    }

    /// The state with the receive flag showing whether bytes are waiting.
    pub open spec fn fifo_shown(self) -> SioState {
        SioState {
            status: if self.fifo.len() == 0 {
                self.status & !RX_FIFONOTEMPTY
            } else {
                self.status | RX_FIFONOTEMPTY
            },
            ..self
        }
    }

    /// Whether the selected port has a pad.
    pub open spec fn pad_connected(self) -> bool {
        if self.control & WHICH_PORT != 0 {
            self.pad2_connected
        } else {
            self.pad1_connected
        }
    }

    /// The buttons of the selected port.
    pub open spec fn pad_buttons(self) -> PadButtons {
        if self.control & WHICH_PORT != 0 {
            self.pad2
        } else {
            self.pad1
        }
    }

    /// The pad's answer to a byte: first the address, then the read command,
    /// then one byte of its response for each further byte.
    pub open spec fn pad_written(self, value: u8) -> SioState {
        if self.pad_state == PAD_STATE_IDLE {
            let s = SioState {
                status: self.status | RX_FIFONOTEMPTY,
                buffer: self.buffer.update(0, 0xFF),
                ..self
            };
            if !self.pad_connected() {
                s
            } else {
                (SioState {
                    max_buffer_index: 2,
                    buffer_index: 0,
                    pad_state: PAD_STATE_READ_COMMAND,
                    ..s
                }).acknowledged()
            }
        } else if self.pad_state == PAD_STATE_READ_COMMAND {
            if value == 0x42 {
                let buttons = self.pad_buttons().0;
                (SioState {
                    pad_state: PAD_STATE_READ_DATA,
                    buffer_index: 1,
                    max_buffer_index: 4,
                    buffer: self.buffer.update(1, 0x41).update(2, 0x5A).update(
                        3,
                        (buttons & 0xFF) as u8,
                    ).update(4, (buttons >> 8) as u8),
                    ..self
                }).acknowledged()
            } else {
                SioState {
                    pad_state: PAD_STATE_IDLE,
                    buffer_index: 1,
                    buffer: self.buffer.update(1, 0xFF),
                    device: DEVICE_IGNORE,
                    ..self
                }
            }
        } else if self.pad_state == PAD_STATE_READ_DATA {
            let s = SioState { buffer_index: (self.buffer_index + 1) as u32, ..self };
            if s.buffer_index >= s.max_buffer_index {
                SioState { pad_state: PAD_STATE_IDLE, device: DEVICE_IGNORE, ..s }
            } else {
                s.acknowledged()
            }
        } else {
            self
        }
    }

    /// The state with the addressed device chosen: the first byte after a
    /// selection is the address.
    pub open spec fn addressed(self) -> SioState {
        SioState {
            device: if self.device == DEVICE_NONE {
                self.data
            } else {
                self.device
            },
            ..self
        }
    }

    /// The state after the addressed device has seen the byte sent, and the
    /// byte that it answers. Only a pad answers with more than 0xFF.
    pub open spec fn exchanged(self) -> (SioState, u8) {
        if self.device == DEVICE_PAD {
            let s = self.pad_written(self.data);
            (s, s.buffer[s.buffer_index as int])
        } else if self.device == DEVICE_MEMCARD {
            (SioState { device: DEVICE_IGNORE, ..self }, 0xFF)
        } else if self.device == DEVICE_IGNORE {
            (self, 0xFF)
        } else {
            (SioState { device: DEVICE_NONE, pad_state: PAD_STATE_IDLE, ..self }, 0xFF)
        }
    }

    /// The state after the waiting byte has been sent and the answer received.
    pub open spec fn transmitted(self) -> SioState {
        let begun = SioState { status: self.status & !TX_FINISHED, ..self };
        let (s, answer) = begun.addressed().exchanged();
        let r = SioState { data: answer, ..(SioState { fifo: s.fifo.push(answer), ..s }).fifo_shown() };
        let q = if r.receive_irq_ready() && r.status & IRQ_FLAG == 0 {
            r.irq_asked()
        } else {
            r
        };
        SioState { status: q.status | (TX_DATACLEAR | TX_FINISHED), ..q }
    }

    /// The byte that a read of the data register gives: the oldest received
    /// one, or 0xFF.
    pub open spec fn next_byte(self) -> u8 {
        if self.status & RX_FIFONOTEMPTY != 0 && self.fifo.len() > 0 {
            self.fifo[0]
        } else {
            0xFF
        }
    }

    /// The state after that read.
    pub open spec fn byte_read(self) -> SioState {
        if self.status & RX_FIFONOTEMPTY != 0 && self.fifo.len() > 0 {
            (SioState { fifo: self.fifo.subrange(1, self.fifo.len() as int), ..self }).fifo_shown()
        } else {
            self.fifo_shown()
        }
    }

    /// The state after a byte has been written to the data register.
    pub open spec fn byte_written(self, value: u8) -> SioState {
        let s = SioState { data: value, status: self.status & !TX_DATACLEAR, ..self };
        if s.transmit_ready() {
            s.transmitted()
        } else {
            s
        }
    }

    /// The state with the device exchange started over.
    pub open spec fn deselected(self) -> SioState {
        SioState { device: DEVICE_NONE, pad_state: PAD_STATE_IDLE, buffer_index: 0, ..self }
    }

    /// The state after a write to the control register, before a byte that has
    /// become ready is sent.
    pub open spec fn controlled(self, value: u16) -> SioState {
        let was = self.control;
        let selected = was & SELECT_ENABLE == 0 && value & SELECT_ENABLE != 0;
        let dropped = was & SELECT_ENABLE != 0 && value & SELECT_ENABLE == 0;
        let port_changed = was & WHICH_PORT != 0 && value & WHICH_PORT == 0;
        let s0 = SioState { control: value, ..self };
        let s1 = if selected && value & TX_IRQEN != 0 && s0.status & IRQ_FLAG == 0 {
            s0.irq_asked()
        } else {
            s0
        };
        let s2 = if dropped || port_changed {
            s1.deselected()
        } else {
            s1
        };
        let s3 = if s2.control & RESET_ERR != 0 {
            let c = SioState {
                status: s2.status & !(RX_PARITYERR | IRQ_FLAG),
                control: s2.control & !RESET_ERR,
                ..s2
            };
            if c.receive_irq_ready() {
                SioState { status: c.status | IRQ_FLAG, ..c }
            } else {
                c
            }
        } else {
            s2
        };
        let s4 = if s3.control & RESET != 0 {
            SioState {
                fifo: Seq::empty(),
                status: TX_DATACLEAR | TX_FINISHED,
                pending_irq: false,
                ..s3.deselected()
            }
        } else {
            s3
        };
        let s5 = s4.fifo_shown();
        if s5.control & TX_IRQEN != 0 {
            SioState { status: s5.status | IRQ_FLAG, ..s5 }
        } else {
            s5
        }
    }

    /// The state after a write to the control register.
    pub open spec fn ctrl_written(self, value: u16) -> SioState {
        let s = self.controlled(value);
        if !self.transmit_ready() && s.transmit_ready() {
            s.transmitted()
        } else {
            s
        }
    }

    /// The state after a reset; the pads and a pending interrupt stay.
    pub open spec fn was_reset(self) -> SioState {
        SioState {
            fifo: Seq::empty(),
            pad_state: PAD_STATE_IDLE,
            status: TX_DATACLEAR | TX_FINISHED,
            mode: 0,
            control: 0,
            baud: 0,
            buffer_index: 0,
            device: DEVICE_NONE,
            ..self
        }
    }
}

/// The text of a truth value.
pub open spec fn bool_text(b: bool) -> Seq<char> {
    if b {
        "true"@
    } else {
        "false"@
    }
}

impl SioState {
    /// The diagnostic line about the registers.
    pub open spec fn dump_text(self) -> Seq<char> {
        "status="@ + hex_text(self.status as nat, 4) + " ctrl="@ + hex_text(self.control as nat, 4)
            + " mode="@ + hex_text(self.mode as nat, 4) + " baud="@ + hex_text(self.baud as nat, 4)
            + " data="@ + hex_text(self.data as nat, 2) + " fifo_len="@ + decimal_text(
            self.fifo.len(),
        ) + " pad_state="@ + decimal_text(self.pad_state as nat) + " device="@ + hex_text(
            self.device as nat,
            2,
        ) + " pending_irq="@ + bool_text(self.pending_irq) + " pending_delay="@ + decimal_text(
            self.pending_irq_delay as nat,
        )
    }
}

impl Sio {
    pub open spec fn wf(&self) -> bool {
        self@.wf()
    }

    /// The serial port after power-on.
    pub fn new() -> (r: Self)
        ensures
            r.wf(),
            r@ == SioState::initial(),
    {
        let r = Sio {
            status: TX_DATACLEAR | TX_FINISHED,
            mode: 0,
            control: 0,
            baud: 0,
            data: 0,
            rx_fifo: VecDeque::new(),
            pad_state: PAD_STATE_IDLE,
            current_device: DEVICE_NONE,
            buffer: [0;256],
            buffer_index: 0,
            max_buffer_index: 0,
            pad1: PadButtons::new(),
            pad2: PadButtons::new(),
            pad1_connected: true,
            pad2_connected: false,
            pending_irq: false,
            pending_irq_delay: 0,
        };
        assert(r@.buffer =~= SioState::initial().buffer);
        r
    }

    /// Resets the registers and the exchange with the device.
    pub fn reset(&mut self)
        requires
            old(self).wf(),
        ensures
            final(self).wf(),
            final(self)@ == old(self)@.was_reset(),
    {
        self.rx_fifo.clear();
        self.pad_state = PAD_STATE_IDLE;
        self.status = TX_DATACLEAR | TX_FINISHED;
        self.mode = 0;
        self.control = 0;
        self.baud = 0;
        self.buffer_index = 0;
        self.current_device = DEVICE_NONE;
    }

    fn sio_cycles(&self) -> (r: u32)
        ensures
            r == self@.byte_cycles(),
    {
        if self.baud == 0 {
            8
        } else {
            self.baud as u32 * 8
        }
    }

    fn ask_irq(&mut self)
        ensures
            final(self)@ == old(self)@.irq_asked(),
    {
        self.pending_irq = true;
        self.pending_irq_delay = self.sio_cycles();
    }

    fn acknowledge(&mut self)
        ensures
            final(self)@ == old(self)@.acknowledged(),
    {
        if self.control & TX_ENABLE != 0 && self.control & ACK_IRQEN != 0 {
            self.ask_irq();
        }
    }

    fn is_transmit_ready(&self) -> (r: bool)
        ensures
            r == self@.transmit_ready(),
    {
        self.control & TX_ENABLE != 0 && self.status & TX_FINISHED != 0 && self.status
            & TX_DATACLEAR == 0
    }

    fn is_receive_irq_ready(&self) -> (r: bool)
        ensures
            r == self@.receive_irq_ready(),
    {
        if self.control & RX_IRQEN == 0 {
            return false;
        }
        let threshold: usize = match (self.control >> 8) & 3 {
            0 => 1,
            1 => 2,
            2 => 4,
            _ => 8,
        };
        self.rx_fifo.len() >= threshold
    }

    fn update_fifo_status(&mut self)
        ensures
            final(self)@ == old(self)@.fifo_shown(),
    {
        if self.rx_fifo.len() == 0 {
            self.status = self.status & !RX_FIFONOTEMPTY;
        } else {
            self.status = self.status | RX_FIFONOTEMPTY;
        }
    }

    fn write_pad(&mut self, value: u8)
        requires
            old(self).wf(),
        ensures
            final(self).wf(),
            final(self)@ == old(self)@.pad_written(value),
    {
        let port2: bool = self.control & WHICH_PORT != 0;
        let connected: bool = if port2 {
            self.pad2_connected
        } else {
            self.pad1_connected
        };
        let buttons: PadButtons = if port2 {
            self.pad2
        } else {
            self.pad1
        };
        match self.pad_state {
            PAD_STATE_IDLE => {
                self.status = self.status | RX_FIFONOTEMPTY;
                self.buffer[0] = 0xFF;
                if !connected {
                    return ;
                }
                self.max_buffer_index = 2;
                self.buffer_index = 0;
                self.pad_state = PAD_STATE_READ_COMMAND;
            },
            PAD_STATE_READ_COMMAND => {
                self.buffer_index = 1;
                match value {
                    0x42 => {
                        self.pad_state = PAD_STATE_READ_DATA;
                        self.buffer[1] = 0x41;
                        self.max_buffer_index = 4;
                        self.buffer[2] = 0x5A;
                        self.buffer[3] = (buttons.0 & 0xFF) as u8;
                        self.buffer[4] = (buttons.0 >> 8) as u8;
                    },
                    _ => {
                        self.buffer[1] = 0xFF;
                        self.pad_state = PAD_STATE_IDLE;
                        self.current_device = DEVICE_IGNORE;
                        return ;
                    },
                }
            },
            PAD_STATE_READ_DATA => {
                self.buffer_index = self.buffer_index + 1;
                if self.buffer_index >= self.max_buffer_index {
                    self.pad_state = PAD_STATE_IDLE;
                    self.current_device = DEVICE_IGNORE;
                    return ;
                }
            },
            _ => {
                return ;
            },
        }
        self.acknowledge();
    }

    fn transmit_data(&mut self)
        requires
            old(self).wf(),
        ensures
            final(self).wf(),
            final(self)@ == old(self)@.transmitted(),
    {
        self.status = self.status & !TX_FINISHED;
        let mut rx_byte: u8 = 0xFF;
        if self.current_device == DEVICE_NONE {
            self.current_device = self.data;
        }
        match self.current_device {
            DEVICE_PAD => {
                let sent: u8 = self.data;
                self.write_pad(sent);
                rx_byte = self.buffer[self.buffer_index as usize];
            },
            DEVICE_MEMCARD => {
                self.current_device = DEVICE_IGNORE;
            },
            DEVICE_IGNORE => {},
            _ => {
                self.current_device = DEVICE_NONE;
                self.pad_state = PAD_STATE_IDLE;
            },
        }
        self.rx_fifo.push_back(rx_byte);
        self.update_fifo_status();
        self.data = rx_byte;
        if self.is_receive_irq_ready() && self.status & IRQ_FLAG == 0 {
            self.ask_irq();
        }
        self.status = self.status | (TX_DATACLEAR | TX_FINISHED);
    }

    /// Reads the data register.
    pub fn read8(&mut self) -> (r: u8)
        requires
            old(self).wf(),
        ensures
            final(self).wf(),
            r == old(self)@.next_byte(),
            final(self)@ == old(self)@.byte_read(),
    {
        let ret: u8 = if self.status & RX_FIFONOTEMPTY != 0 && self.rx_fifo.len() > 0 {
            match self.rx_fifo.pop_front() {
                Some(b) => b,
                None => 0xFF,
            }
        } else {
            0xFF
        };
        self.update_fifo_status();
        ret
    }

    /// Reads the status register.
    pub fn read_status16(&self) -> (r: u16)
        ensures
            r == self@.status as u16,
    {
        self.status as u16
    }

    /// Reads the status register.
    pub fn read_status32(&self) -> (r: u32)
        ensures
            r == self@.status,
    {
        self.status
    }

    /// Reads the mode register.
    pub fn read_mode16(&self) -> (r: u16)
        ensures
            r == self@.mode,
    {
        self.mode
    }

    /// Reads the control register.
    pub fn read_ctrl16(&self) -> (r: u16)
        ensures
            r == self@.control,
    {
        self.control
    }

    /// Reads the baud register.
    pub fn read_baud16(&self) -> (r: u16)
        ensures
            r == self@.baud,
    {
        self.baud
    }

    /// Writes the data register; the byte goes out at once if the port is ready.
    pub fn write8(&mut self, value: u8)
        requires
            old(self).wf(),
        ensures
            final(self).wf(),
            final(self)@ == old(self)@.byte_written(value),
    {
        self.data = value;
        self.status = self.status & !TX_DATACLEAR;
        if self.is_transmit_ready() {
            self.transmit_data();
        }
    }

    /// Writes the mode register.
    pub fn write_mode16(&mut self, value: u16)
        requires
            old(self).wf(),
        ensures
            final(self).wf(),
            final(self)@ == (SioState { mode: value, ..old(self)@ }),
    {
        self.mode = value;
    }

    /// Writes the control register.
    pub fn write_ctrl16(&mut self, value: u16)
        requires
            old(self).wf(),
        ensures
            final(self).wf(),
            final(self)@ == old(self)@.ctrl_written(value),
    {
        let deselected: bool = self.control & SELECT_ENABLE != 0 && value & SELECT_ENABLE == 0;
        let selected: bool = self.control & SELECT_ENABLE == 0 && value & SELECT_ENABLE != 0;
        let port_changed: bool = self.control & WHICH_PORT != 0 && value & WHICH_PORT == 0;
        let was_ready: bool = self.is_transmit_ready();
        self.control = value;
        if selected && self.control & TX_IRQEN != 0 && self.status & IRQ_FLAG == 0 {
            self.ask_irq();
        }
        if deselected || port_changed {
            self.current_device = DEVICE_NONE;
            self.pad_state = PAD_STATE_IDLE;
            self.buffer_index = 0;
        }
        if self.control & RESET_ERR != 0 {
            self.status = self.status & !(RX_PARITYERR | IRQ_FLAG);
            self.control = self.control & !RESET_ERR;
            if self.is_receive_irq_ready() {
                self.status = self.status | IRQ_FLAG;
            }
        }
        if self.control & RESET != 0 {
            self.rx_fifo.clear();
            self.pad_state = PAD_STATE_IDLE;
            self.buffer_index = 0;
            self.status = TX_DATACLEAR | TX_FINISHED;
            self.current_device = DEVICE_NONE;
            self.pending_irq = false;
        }
        self.update_fifo_status();
        if self.control & TX_IRQEN != 0 {
            self.status = self.status | IRQ_FLAG;
        }
        assert(self@ == old(self)@.controlled(value));
        if !was_ready && self.is_transmit_ready() {
            self.transmit_data();
        }
    }

    /// Writes the baud register.
    pub fn write_baud16(&mut self, value: u16)
        requires
            old(self).wf(),
        ensures
            final(self).wf(),
            final(self)@ == (SioState { baud: value, ..old(self)@ }),
    {
        self.baud = value;
    }

    /// Marks the interrupt in the status register when its time has come.
    pub fn interrupt(&mut self)
        requires
            old(self).wf(),
        ensures
            final(self).wf(),
            final(self)@ == (SioState { status: old(self)@.status | IRQ_FLAG, ..old(self)@ }),
    {
        self.status = self.status | IRQ_FLAG;
    }

    /// Takes the pending interrupt, if any, and gives its delay.
    pub fn take_irq(&mut self) -> (r: Option<u32>)
        requires
            old(self).wf(),
        ensures
            final(self).wf(),
            final(self)@ == (SioState { pending_irq: false, ..old(self)@ }),
            r == (if old(self)@.pending_irq {
                Some(old(self)@.pending_irq_delay)
            } else {
                None
            }),
    {
        if self.pending_irq {
            self.pending_irq = false;
            Some(self.pending_irq_delay)
        } else {
            None
        }
    }

    /// A diagnostic line about the registers.
    pub fn debug_dump(&self) -> (r: String)
        ensures
            r@ == self@.dump_text(),
    {
        let mut out: Vec<char> = Vec::new();
        push_text(&mut out, "status=");
        assert(out@ =~= "status="@);
        push_hex(&mut out, self.status as u64, 4);
        push_text(&mut out, " ctrl=");
        push_hex(&mut out, self.control as u64, 4);
        push_text(&mut out, " mode=");
        push_hex(&mut out, self.mode as u64, 4);
        push_text(&mut out, " baud=");
        push_hex(&mut out, self.baud as u64, 4);
        push_text(&mut out, " data=");
        push_hex(&mut out, self.data as u64, 2);
        push_text(&mut out, " fifo_len=");
        push_decimal(&mut out, self.rx_fifo.len() as u64);
        push_text(&mut out, " pad_state=");
        push_decimal(&mut out, self.pad_state as u64);
        push_text(&mut out, " device=");
        push_hex(&mut out, self.current_device as u64, 2);
        push_text(&mut out, " pending_irq=");
        push_text(
            &mut out,
            if self.pending_irq {
                "true"
            } else {
                "false"
            },
        );
        push_text(&mut out, " pending_delay=");
        push_decimal(&mut out, self.pending_irq_delay as u64);
        text_of(out.as_slice())
    }
}

/// A byte written while the port is on and not busy is answered at once.
proof fn lemma_sent(s: SioState, value: u8)
    requires
        s.control & TX_ENABLE != 0,
        s.status & TX_FINISHED != 0,
    ensures
        ({
            let begun = SioState {
                data: value,
                status: (s.status & !TX_DATACLEAR) & !TX_FINISHED,
                ..s
            };
            let (t, answer) = begun.addressed().exchanged();
            let r = s.byte_written(value);
            &&& r.fifo == t.fifo.push(answer)
            &&& r.control == s.control
            &&& r.status & TX_FINISHED != 0
            &&& r.device == t.device
            &&& r.pad_state == t.pad_state
            &&& r.buffer == t.buffer
            &&& r.buffer_index == t.buffer_index
            &&& r.max_buffer_index == t.max_buffer_index
            &&& r.pad1 == s.pad1
            &&& r.pad2 == s.pad2
            &&& r.pad1_connected == s.pad1_connected
            &&& r.pad2_connected == s.pad2_connected
        }),
{
    let st = s.status;
    lemma_status_flags(st);
    let q = s.byte_written(value);
    let w = (SioState { data: value, status: st & !TX_DATACLEAR, ..s });
    assert(w.transmit_ready());
}

/// How the flags of the status register are set and cleared.
proof fn lemma_status_flags(st: u32)
    by (bit_vector)
    ensures
        st & 4 != 0 ==> (st & !1u32) & 4 != 0,
        (st & !1u32) & 1 == 0,
        (st & !2u32) & 2 == 0,
        (st | 2) & 2 != 0,
        forall|x: u32| (#[trigger] (x | (1u32 | 4u32))) & 4 != 0,
{
}

/// The state after each of `data` has been written to the data register.
pub open spec fn bytes_written(s: SioState, data: Seq<u8>) -> SioState
    decreases data.len(),
{
    if data.len() == 0 {
        s
    } else {
        bytes_written(s, data.drop_last()).byte_written(data.last())
    }
}

/// Polling a connected pad (address, read command, three filler bytes) answers
/// with the pad's identity 0x41, 0x5A and the two button bytes of the selected
/// port, low byte first.
pub proof fn law_pad_poll(s: SioState, filler: (u8, u8, u8))
    requires
        s.wf(),
        s.control & TX_ENABLE != 0,
        s.status & TX_FINISHED != 0,
        s.device == DEVICE_NONE,
        s.pad_state == PAD_STATE_IDLE,
        s.pad_connected(),
    ensures
        bytes_written(s, seq![0x01u8, 0x42u8, filler.0, filler.1, filler.2]).fifo == s.fifo + seq![
            0xFFu8,
            0x41u8,
            0x5Au8,
            (s.pad_buttons().0 & 0xFF) as u8,
            (s.pad_buttons().0 >> 8) as u8,
        ],
{
    let a1 = s.byte_written(0x01);
    let a2 = a1.byte_written(0x42);
    let a3 = a2.byte_written(filler.0);
    let a4 = a3.byte_written(filler.1);
    let a5 = a4.byte_written(filler.2);
    let d5 = seq![0x01u8, 0x42u8, filler.0, filler.1, filler.2];
    let d4 = seq![0x01u8, 0x42u8, filler.0, filler.1];
    let d3 = seq![0x01u8, 0x42u8, filler.0];
    let d2 = seq![0x01u8, 0x42u8];
    let d1 = seq![0x01u8];
    assert(d5.drop_last() =~= d4 && d4.drop_last() =~= d3 && d3.drop_last() =~= d2);
    assert(d2.drop_last() =~= d1 && d1.drop_last() =~= Seq::empty());
    assert(bytes_written(s, Seq::empty()) == s);
    assert(bytes_written(s, d1) == a1);
    assert(bytes_written(s, d2) == a2);
    assert(bytes_written(s, d3) == a3);
    assert(bytes_written(s, d4) == a4);
    assert(bytes_written(s, d5) == a5);
    lemma_sent(s, 0x01);
    lemma_sent(a1, 0x42);
    lemma_sent(a2, filler.0);
    lemma_sent(a3, filler.1);
    lemma_sent(a4, filler.2);
    assert(a5.fifo =~= s.fifo + seq![
        0xFFu8,
        0x41u8,
        0x5Au8,
        (s.pad_buttons().0 & 0xFF) as u8,
        (s.pad_buttons().0 >> 8) as u8,
    ]);
}

/// Received bytes are read in the order in which they came, and the receive
/// flag shows whether any are left.
pub proof fn law_fifo_order(s: SioState)
    requires
        s.fifo.len() > 0,
        s.status & RX_FIFONOTEMPTY != 0,
    ensures
        s.next_byte() == s.fifo[0],
        s.byte_read().fifo == s.fifo.subrange(1, s.fifo.len() as int),
        (s.byte_read().status & RX_FIFONOTEMPTY != 0) == (s.fifo.len() > 1),
{
    lemma_status_flags(s.status);
}

} // verus!
