//! The CD-ROM controller: four register ports, a command state machine with
//! delayed responses, and sector reading from a raw disc image.

use vstd::prelude::*;

pub mod command_laws;
pub mod cue;
pub mod laws;
pub mod port_laws;

verus! {

/// The kind of response the controller signals.
pub const NO_INTR: u8 = 0;

pub const DATA_READY: u8 = 1;

pub const COMPLETE: u8 = 2;

pub const ACKNOWLEDGE: u8 = 3;

pub const DISK_ERROR: u8 = 5;

/// Port 0 flags.
pub const BUSYSTS: u8 = 0x80;

pub const DRQSTS: u8 = 0x40;

pub const RSLRRDY: u8 = 0x20;

pub const PRMWRDY: u8 = 0x10;

pub const PRMEMPT: u8 = 0x08;

/// Drive status flags.
pub const STATUS_PLAY: u8 = 0x80;

pub const STATUS_SEEK: u8 = 0x40;

pub const STATUS_READ: u8 = 0x20;

pub const STATUS_SHELLOPEN: u8 = 0x10;

pub const STATUS_ROTATING: u8 = 0x02;

pub const STATUS_ERROR: u8 = 0x01;

/// Error codes.
pub const ERROR_NOTREADY: u8 = 0x80;

pub const ERROR_INVALIDCMD: u8 = 0x40;

/// Commands.
pub const CDL_GETSTAT: u8 = 1;

pub const CDL_SETLOC: u8 = 2;

pub const CDL_READN: u8 = 6;

pub const CDL_STANDBY: u8 = 7;

pub const CDL_STOP: u8 = 8;

pub const CDL_PAUSE: u8 = 9;

pub const CDL_RESET: u8 = 10;

pub const CDL_MUTE: u8 = 11;

pub const CDL_DEMUTE: u8 = 12;

pub const CDL_SETFILTER: u8 = 13;

pub const CDL_SETMODE: u8 = 14;

pub const CDL_GETPARAM: u8 = 15;

pub const CDL_GETLOCL: u8 = 16;

pub const CDL_GETLOCP: u8 = 17;

pub const CDL_GETTN: u8 = 19;

pub const CDL_GETTD: u8 = 20;

pub const CDL_SEEKL: u8 = 21;

pub const CDL_SEEKP: u8 = 22;

pub const CDL_TEST: u8 = 25;

pub const CDL_ID: u8 = 26;

pub const CDL_READS: u8 = 27;

pub const CDL_INIT: u8 = 28;

pub const CDL_READTOC: u8 = 30;

/// How long to wait before a response is tried again.
pub const IRQ_RESCHEDULE: u32 = 0x100;

/// Drive states.
pub const DRIVESTATE_STANDBY: u8 = 0;

pub const DRIVESTATE_LID_OPEN: u8 = 1;

pub const DRIVESTATE_RESCAN_CD: u8 = 2;

pub const DRIVESTATE_PREPARE_CD: u8 = 3;

pub const DRIVESTATE_STOPPED: u8 = 4;

/// Processor cycles per sector at single speed: the clock divided by 75.
pub const CD_READ_TIME: u32 = 451_584;

/// The size of a raw sector in bytes.
pub const SECTOR_SIZE: usize = 2352;

/// The bytes of a raw sector after its sync pattern.
pub const DATA_SIZE: usize = 2340;

/// Which of the controller's delayed events is asked for.
#[derive(Debug, Clone, Copy, PartialEq, Eq, Structural)]
pub enum CdIrqType {
    Command,
    Read,
    Lid,
}

/// A delayed event that the controller asks for.
#[derive(Debug, Clone, Copy, PartialEq, Eq, Structural)]
pub struct CdInterrupt {
    pub irq_type: CdIrqType,
    pub delay: u32,
}

/// The CD-ROM controller with its disc.
pub struct CdRom {
    pub ctrl: u8,
    pub stat: u8,
    pub stat_p: u8,
    pub reg2: u8,
    pub cmd: u8,
    pub param: [u8; 8],
    pub param_c: u8,
    pub result: [u8; 16],
    pub result_c: u8,
    pub result_p: u8,
    pub result_ready: u8,
    pub irq: u16,
    pub irq_repeated: u8,
    pub e_cycle: u32,
    pub drive_state: u8,
    pub mode: u8,
    pub muted: bool,
    pub reading: bool,
    pub play: bool,
    pub read: bool,
    pub seeked: u8,
    pub transfer: [u8; 2352],
    pub transfer_index: usize,
    pub set_sector: [u8; 3],
    pub set_sector_play: [u8; 3],
    pub setloc_pending: bool,
    pub location_changed: bool,
    pub file: u8,
    pub channel: u8,
    pub has_disc: bool,
    pub pending_irqs: Vec<CdInterrupt>,
    pub disc_data: Vec<u8>,
}

/// The state of the CD-ROM controller.
pub struct CdState {
    pub ctrl: u8,
    pub stat: u8,
    pub stat_p: u8,
    pub reg2: u8,
    pub cmd: u8,
    pub param: Seq<u8>,
    pub param_c: u8,
    pub result: Seq<u8>,
    pub result_c: u8,
    pub result_p: u8,
    pub result_ready: u8,
    /// The response under way, 0 if none; second responses are the command
    /// plus 0x100.
    pub irq: u16,
    pub irq_repeated: u8,
    pub e_cycle: u32,
    pub drive_state: u8,
    pub mode: u8,
    pub muted: bool,
    pub reading: bool,
    pub play: bool,
    /// Whether the host has asked for the sector data.
    pub read: bool,
    pub seeked: u8,
    pub transfer: Seq<u8>,
    pub transfer_index: usize,
    pub set_sector: [u8; 3],
    pub set_sector_play: [u8; 3],
    pub setloc_pending: bool,
    pub location_changed: bool,
    pub file: u8,
    pub channel: u8,
    pub has_disc: bool,
    pub pending: Seq<CdInterrupt>,
    pub disc: Seq<u8>,
}

impl View for CdRom {
    type V = CdState;

    open spec fn view(&self) -> CdState {
        CdState {
            ctrl: self.ctrl,
            stat: self.stat,
            stat_p: self.stat_p,
            reg2: self.reg2,
            cmd: self.cmd,
            param: self.param@,
            param_c: self.param_c,
            result: self.result@,
            result_c: self.result_c,
            result_p: self.result_p,
            result_ready: self.result_ready,
            irq: self.irq,
            irq_repeated: self.irq_repeated,
            e_cycle: self.e_cycle,
            drive_state: self.drive_state,
            mode: self.mode,
            muted: self.muted,
            reading: self.reading,
            play: self.play,
            read: self.read,
            seeked: self.seeked,
            transfer: self.transfer@,
            transfer_index: self.transfer_index,
            set_sector: self.set_sector,
            set_sector_play: self.set_sector_play,
            setloc_pending: self.setloc_pending,
            location_changed: self.location_changed,
            file: self.file,
            channel: self.channel,
            has_disc: self.has_disc,
            pending: self.pending_irqs@,
            disc: self.disc_data@,
        }
    }
}

/// The value of a binary-coded decimal byte.
pub open spec fn bcd_value(b: u8) -> int {
    (b >> 4) * 10 + (b & 0x0F)
}

/// A number below 100 as a binary-coded decimal byte; larger tens overflow.
pub open spec fn bcd_byte(n: int) -> u8 {
    ((n / 10) as u8) << 4 | (n % 10) as u8
}

/// The sector number of a minute, second, frame address. There is no lead-in
/// offset: address 00:00:00 is the first sector of the image.
pub open spec fn msf_lba(msf: [u8; 3]) -> int {
    (bcd_value(msf[0]) * 60 + bcd_value(msf[1])) * 75 + bcd_value(msf[2])
}

/// The frame, second and minute of the address after `msf`.
pub open spec fn next_frame(msf: [u8; 3]) -> int {
    let f = bcd_value(msf[2]) + 1;
    if f >= 75 {
        0
    } else {
        f
    }
}

pub open spec fn next_second(msf: [u8; 3]) -> int {
    let s = bcd_value(msf[1]) + (if bcd_value(msf[2]) + 1 >= 75 {
        1int
    } else {
        0int
    });
    if s >= 60 {
        0
    } else {
        s
    }
}

pub open spec fn next_minute(msf: [u8; 3]) -> int {
    let s = bcd_value(msf[1]) + (if bcd_value(msf[2]) + 1 >= 75 {
        1int
    } else {
        0int
    });
    bcd_value(msf[0]) + (if s >= 60 {
        1int
    } else {
        0int
    })
}

/// The address after `msf`.
pub open spec fn next_msf(msf: [u8; 3]) -> [u8; 3] {
    [
        bcd_byte(next_minute(msf)),
        bcd_byte(next_second(msf)),
        bcd_byte(next_frame(msf)),
    ]
}

/// The address in the first three parameters.
pub open spec fn parameter_msf(param: Seq<u8>) -> [u8; 3] {
    [param[0], param[1], param[2]]
}

/// A response: the state it leaves, whether it is given even while the drive is
/// not ready, and whether it starts a stopped drive.
pub struct CdReply {
    pub state: CdState,
    pub no_busy_error: bool,
    pub start_rotating: bool,
}

impl CdState {
    /// The state after power-on.
    pub open spec fn initial() -> CdState {
        CdState {
            ctrl: 0,
            stat: NO_INTR,
            stat_p: STATUS_ROTATING,
            reg2: 0x1F,
            cmd: 0,
            param: Seq::new(8, |i: int| 0u8),
            param_c: 0,
            result: Seq::new(16, |i: int| 0u8),
            result_c: 0,
            result_p: 0,
            result_ready: 0,
            irq: 0,
            irq_repeated: 0,
            e_cycle: 0,
            drive_state: DRIVESTATE_STANDBY,
            mode: 0,
            muted: false,
            reading: false,
            play: false,
            read: false,
            seeked: 1,
            transfer: Seq::new(SECTOR_SIZE as nat, |i: int| 0u8),
            transfer_index: 0,
            set_sector: [0u8, 0u8, 0u8],
            set_sector_play: [0u8, 0u8, 0u8],
            setloc_pending: false,
            location_changed: false,
            file: 1,
            channel: 1,
            has_disc: false,
            pending: Seq::empty(),
            disc: Seq::empty(),
        }
    }

    /// The buffers have their sizes, and their positions lie inside.
    pub open spec fn wf(self) -> bool {
        &&& self.param.len() == 8
        &&& self.param_c <= 8
        &&& self.result.len() == 16
        &&& self.transfer.len() == SECTOR_SIZE
        &&& self.transfer_index < DATA_SIZE
    }

    /// Whether the response at hand is enabled and raises the interrupt line.
    pub open spec fn raises(self) -> bool {
        self.stat & self.reg2 != 0
    }

    /// The state with a result of `size` bytes ready.
    pub open spec fn sized(self, size: u8) -> CdState {
        CdState { result_p: 0, result_c: size, result_ready: 1, ..self }
    }

    /// The state with byte `i` of the result set.
    pub open spec fn with_result(self, i: int, v: u8) -> CdState {
        CdState { result: self.result.update(i, v), ..self }
    }

    /// The state with one more delayed event asked for.
    pub open spec fn asked(self, irq_type: CdIrqType, delay: u32) -> CdState {
        CdState { pending: self.pending.push(CdInterrupt { irq_type, delay }), ..self }
    }

    /// The state with response `irq` due after `delay` cycles. If that response,
    /// or its second part, is under way already, it is marked as repeated.
    pub open spec fn queued(self, irq: u16, delay: u32) -> CdState {
        if self.irq != 0 && (irq == self.irq || irq.wrapping_add(0x100) == self.irq) {
            (CdState { irq_repeated: 1, ..self }).asked(CdIrqType::Command, delay)
        } else {
            (CdState { irq, e_cycle: delay, ..self }).asked(CdIrqType::Command, delay)
        }
    }

    pub open spec fn reading_stopped(self) -> CdState {
        CdState {
            reading: false,
            stat_p: self.stat_p & !(STATUS_READ | STATUS_SEEK),
            ..self
        }
    }

    pub open spec fn cdda_stopped(self) -> CdState {
        if self.play {
            CdState { stat_p: self.stat_p & !STATUS_PLAY, play: false, ..self }
        } else {
            self
        }
    }

    pub open spec fn halted(self) -> CdState {
        self.cdda_stopped().reading_stopped()
    }

    /// The state with a set location made the current one.
    pub open spec fn located(self) -> CdState {
        if self.setloc_pending {
            CdState {
                set_sector_play: self.set_sector,
                setloc_pending: false,
                location_changed: true,
                ..self
            }
        } else {
            self
        }
    }

    /// The window of the sector buffer that the host reads, by sector mode.
    pub open spec fn window(self) -> int {
        if self.mode & 0x30 == 0x20 || self.mode & 0x30 == 0x10 {
            2340
        } else {
            2060
        }
    }

    /// The next byte of sector data.
    pub open spec fn data_byte(self) -> u8 {
        self.transfer[self.transfer_index as int]
    }

    /// The state after that byte has been taken. At the end of the window the
    /// position starts over; at the very start there is no more data.
    pub open spec fn byte_taken(self) -> CdState {
        let next = self.transfer_index + 1;
        let at = if next >= self.window() {
            next - self.window()
        } else {
            next
        };
        let s = CdState { transfer_index: at as usize, ..self };
        if at == 0 {
            CdState { ctrl: s.ctrl & !DRQSTS, read: false, ..s }
        } else {
            s
        }
    }

    /// The state after `n` bytes of sector data have been taken.
    pub open spec fn bytes_taken(self, n: nat) -> CdState
        decreases n,
    {
        if n == 0 {
            self
        } else {
            self.bytes_taken((n - 1) as nat).byte_taken()
        }
    }

    /// The next `n` bytes of sector data.
    pub open spec fn data_bytes(self, n: nat) -> Seq<u8> {
        Seq::new(n, |i: int| self.bytes_taken(i as nat).data_byte())
    }

    /// The value read from a port.
    pub open spec fn port(self, port: u32) -> u8 {
        if port == 0 {
            let c = if self.result_ready != 0 {
                self.ctrl | RSLRRDY
            } else {
                self.ctrl & !RSLRRDY
            };
            c | (PRMEMPT | PRMWRDY)
        } else if port == 1 {
            if self.result_p & 0xF < self.result_c {
                self.result[(self.result_p & 0xF) as int]
            } else {
                0
            }
        } else if port == 2 {
            if self.read {
                self.data_byte()
            } else {
                0
            }
        } else if port == 3 {
            if self.ctrl & 1 != 0 {
                self.stat | 0xE0
            } else {
                self.reg2 | 0xE0
            }
        } else {
            0
        }
    }

    /// The state after a port has been read.
    pub open spec fn port_read(self, port: u32) -> CdState {
        if port == 0 {
            CdState { ctrl: self.port(0), ..self }
        } else if port == 1 {
            let p = self.result_p.wrapping_add(1);
            CdState {
                result_p: p,
                result_ready: if p == self.result_c {
                    0
                } else {
                    self.result_ready
                },
                ..self
            }
        } else if port == 2 {
            if self.read {
                self.byte_taken()
            } else {
                CdState { ctrl: self.ctrl & !DRQSTS, ..self }
            }
        } else {
            self
        }
    }

    /// The state after a command byte has been written.
    pub open spec fn commanded(self, value: u8) -> CdState {
        (CdState {
            cmd: value,
            result_ready: 0,
            ctrl: self.ctrl | BUSYSTS,
            ..self
        }).queued(value as u16, 0x800).takes_effect(value)
    }

    /// The state after what a command does at once, before its response.
    pub open spec fn takes_effect(self, value: u8) -> CdState {
        let s = self;
        if value == CDL_READN || value == CDL_READS || value == CDL_PAUSE {
            s.halted()
        } else if value == CDL_INIT || value == CDL_RESET {
            (CdState { seeked: 1, ..s }).halted()
        } else if value == CDL_SETMODE {
            CdState { mode: s.param[0], ..s }
        } else if value == CDL_SETLOC && s.param_c >= 3 {
            CdState {
                set_sector: parameter_msf(s.param),
                setloc_pending: true,
                ..s
            }
        } else {
            s
        }
    }

    /// The state after a port has been written. Ports 1 to 3 have several
    /// registers each, chosen by the index in port 0.
    pub open spec fn port_written(self, port: u32, value: u8) -> CdState {
        let index = self.ctrl & 3;
        if port == 0 {
            CdState { ctrl: (value & 3) | (self.ctrl & !3u8), ..self }
        } else if port == 1 {
            if index != 0 {
                self
            } else {
                self.commanded(value)
            }
        } else if port == 2 {
            if index == 0 {
                if self.param_c < 8 {
                    CdState {
                        param: self.param.update(self.param_c as int, value),
                        param_c: (self.param_c + 1) as u8,
                        ..self
                    }
                } else {
                    self
                }
            } else if index == 1 {
                CdState { reg2: value, ..self }
            } else {
                self
            }
        } else if port == 3 {
            if index == 0 {
                if value & 0x80 != 0 && !self.read {
                    CdState {
                        read: true,
                        transfer_index: if self.mode & 0x30 == 0x20 {
                            0
                        } else {
                            12
                        },
                        ..self
                    }
                } else {
                    self
                }
            } else if index == 1 {
                CdState {
                    stat: self.stat & !value,
                    param_c: if value & 0x40 != 0 {
                        0
                    } else {
                        self.param_c
                    },
                    ..self
                }
            } else {
                self
            }
        } else {
            self
        }
    }

    /// Whether that write raises the interrupt line: only enabling an interrupt
    /// whose response is at hand does.
    pub open spec fn write_raises(self, port: u32, value: u8) -> bool {
        port == 2 && self.ctrl & 3 == 1 && self.port_written(port, value).raises()
    }

    /// Where the current sector starts in the image.
    pub open spec fn sector_offset(self) -> int {
        msf_lba(self.set_sector_play) * 2352
    }

    /// The state with the header of the current sector in the sector buffer, if
    /// the image holds it.
    pub open spec fn header_loaded(self) -> CdState {
        let off = self.sector_offset();
        if off + 20 <= self.disc.len() {
            CdState {
                transfer: Seq::new(
                    SECTOR_SIZE as nat,
                    |i: int|
                        if i < 8 {
                            self.disc[off + 12 + i]
                        } else {
                            self.transfer[i]
                        },
                ),
                ..self
            }
        } else {
            self
        }
    }

    /// The state with the current sector, without its sync pattern, in the
    /// sector buffer; zeroes if the image does not hold it.
    pub open spec fn sector_loaded(self) -> CdState {
        let off = self.sector_offset();
        CdState {
            transfer: Seq::new(
                SECTOR_SIZE as nat,
                |i: int|
                    if off + 2352 <= self.disc.len() && i < 2340 {
                        self.disc[off + 12 + i]
                    } else {
                        0u8
                    },
            ),
            ..self
        }
    }

    /// The state with the first eight bytes of the sector buffer as the result.
    pub open spec fn header_reported(self) -> CdState {
        CdState {
            result: Seq::new(
                16,
                |i: int|
                    if i < 8 {
                        self.transfer[i]
                    } else {
                        self.result[i]
                    },
            ),
            ..self.sized(8)
        }
    }

    /// The state with a result of eight bytes, zero from byte `from` on.
    pub open spec fn zeroes_reported(self, from: int) -> CdState {
        CdState {
            result: Seq::new(
                16,
                |i: int|
                    if from <= i < 8 {
                        0u8
                    } else {
                        self.result[i]
                    },
            ),
            ..self.sized(8)
        }
    }

    /// The first response to a command.
    pub open spec fn first_reply(self, cmd: u8) -> CdReply {
        let s = self;
        if cmd == CDL_GETSTAT {
            CdReply {
                state: if s.drive_state != DRIVESTATE_LID_OPEN {
                    CdState { stat_p: s.stat_p & !STATUS_SHELLOPEN, ..s }
                } else {
                    s
                },
                no_busy_error: true,
                start_rotating: false,
            }
        } else if cmd == CDL_SETLOC {
            CdReply { state: s, no_busy_error: false, start_rotating: false }
        } else if cmd == CDL_SETFILTER {
            CdReply {
                state: CdState { file: s.param[0], channel: s.param[1], ..s },
                no_busy_error: false,
                start_rotating: false,
            }
        } else if cmd == CDL_MUTE {
            CdReply {
                state: CdState { muted: true, ..s },
                no_busy_error: false,
                start_rotating: false,
            }
        } else if cmd == CDL_DEMUTE {
            CdReply {
                state: CdState { muted: false, ..s },
                no_busy_error: false,
                start_rotating: false,
            }
        } else if cmd == CDL_SETMODE {
            CdReply { state: s, no_busy_error: true, start_rotating: false }
        } else if cmd == CDL_GETPARAM {
            CdReply {
                state: s.sized(5).with_result(1, s.mode).with_result(2, 0).with_result(
                    3,
                    s.file,
                ).with_result(4, s.channel),
                no_busy_error: true,
                start_rotating: false,
            }
        } else if cmd == CDL_GETLOCL {
            CdReply {
                state: s.header_reported(),
                no_busy_error: false,
                start_rotating: false,
            }
        } else if cmd == CDL_GETLOCP {
            CdReply {
                state: s.zeroes_reported(0),
                no_busy_error: false,
                start_rotating: false,
            }
        } else if cmd == CDL_GETTN {
            CdReply {
                state: if !s.has_disc {
                    (CdState { stat: DISK_ERROR, ..s }).with_result(0, s.result[0] | STATUS_ERROR)
                } else {
                    s.sized(3).with_result(1, 1).with_result(2, 1)
                },
                no_busy_error: false,
                start_rotating: false,
            }
        } else if cmd == CDL_GETTD {
            CdReply {
                state: if !s.has_disc {
                    (CdState { stat: DISK_ERROR, ..s }).with_result(0, s.result[0] | STATUS_ERROR)
                } else {
                    s.sized(4).with_result(0, s.stat_p).with_result(1, 0).with_result(2, 2)
                },
                no_busy_error: false,
                start_rotating: false,
            }
        } else if cmd == CDL_TEST {
            CdReply {
                state: if s.param[0] == 0x20 {
                    s.sized(4).with_result(0, 0x98).with_result(1, 0x06).with_result(
                        2,
                        0x10,
                    ).with_result(3, 0xC3)
                } else {
                    s
                },
                no_busy_error: true,
                start_rotating: false,
            }
        } else if cmd == CDL_ID {
            CdReply {
                state: s.queued((CDL_ID + 0x100) as u16, 20480),
                no_busy_error: false,
                start_rotating: false,
            }
        } else if cmd == CDL_INIT {
            CdReply {
                state: (CdState {
                    stat_p: s.stat_p | STATUS_SHELLOPEN,
                    drive_state: DRIVESTATE_RESCAN_CD,
                    ..s
                }).asked(CdIrqType::Lid, 20480),
                no_busy_error: true,
                start_rotating: true,
            }
        } else if cmd == CDL_RESET {
            CdReply {
                state: (CdState { muted: false, mode: 0x20, ..s }).queued(
                    (CDL_RESET + 0x100) as u16,
                    4_100_000,
                ),
                no_busy_error: true,
                start_rotating: true,
            }
        } else if cmd == CDL_STOP {
            let delay: u32 = if s.drive_state == DRIVESTATE_STANDBY {
                (CD_READ_TIME * 30 / 2) as u32
            } else {
                0x800
            };
            CdReply {
                state: (CdState { drive_state: DRIVESTATE_STOPPED, ..s.halted() }).queued(
                    (CDL_STOP + 0x100) as u16,
                    delay,
                ),
                no_busy_error: false,
                start_rotating: false,
            }
        } else if cmd == CDL_PAUSE {
            let delay: u32 = if s.drive_state == DRIVESTATE_STANDBY {
                7000
            } else {
                1_000_000
            };
            let q = s.queued((CDL_PAUSE + 0x100) as u16, delay);
            CdReply {
                state: CdState { ctrl: q.ctrl | BUSYSTS, ..q },
                no_busy_error: false,
                start_rotating: false,
            }
        } else if cmd == CDL_STANDBY {
            CdReply {
                state: s.queued((CDL_STANDBY + 0x100) as u16, (CD_READ_TIME * 125 / 2) as u32),
                no_busy_error: false,
                start_rotating: true,
            }
        } else if cmd == CDL_SEEKL || cmd == CDL_SEEKP {
            let h = s.halted();
            let delay: u32 = if h.seeked == 1 {
                0x800
            } else {
                (CD_READ_TIME * 4) as u32
            };
            CdReply {
                state: (CdState { stat_p: h.stat_p | STATUS_SEEK, seeked: 0, ..h }).queued(
                    (cmd + 0x100) as u16,
                    delay,
                ),
                no_busy_error: false,
                start_rotating: true,
            }
        } else if cmd == CDL_READN || cmd == CDL_READS {
            let l = (CdState { reading: true, ..s.located() }).header_loaded();
            let stat_p = (l.stat_p | STATUS_READ) & !STATUS_SEEK;
            let delay: u32 = if l.mode & 0x80 != 0 {
                CD_READ_TIME
            } else {
                (CD_READ_TIME * 2) as u32
            };
            CdReply {
                state: (CdState { stat_p, ..l }).with_result(0, stat_p).asked(
                    CdIrqType::Read,
                    delay,
                ),
                no_busy_error: false,
                start_rotating: true,
            }
        } else if cmd == CDL_READTOC {
            CdReply {
                state: s.queued((CDL_READTOC + 0x100) as u16, (CD_READ_TIME * 180 / 4) as u32),
                no_busy_error: true,
                start_rotating: true,
            }
        } else {
            s.unknown_reply()
        }
    }

    /// The delayed second response to a command.
    pub open spec fn second_reply(self, cmd: u8) -> CdReply {
        let s = self;
        if cmd == CDL_ID {
            CdReply {
                state: if !s.has_disc {
                    (CdState { stat: DISK_ERROR, ..s.zeroes_reported(2) }).with_result(
                        0,
                        0x08,
                    ).with_result(1, 0x40)
                } else {
                    (CdState { stat: COMPLETE, ..s.sized(8) }).with_result(
                        0,
                        s.stat_p,
                    ).with_result(1, 0).with_result(2, 0).with_result(3, 0).with_result(
                        4,
                        0x50,
                    ).with_result(5, 0x43).with_result(6, 0x53).with_result(7, 0x58)
                },
                no_busy_error: false,
                start_rotating: false,
            }
        } else if cmd == CDL_RESET || cmd == CDL_STANDBY {
            CdReply {
                state: CdState { stat: COMPLETE, ..s },
                no_busy_error: false,
                start_rotating: false,
            }
        } else if cmd == CDL_STOP {
            let stat_p = s.stat_p & !STATUS_ROTATING;
            CdReply {
                state: (CdState { stat_p, stat: COMPLETE, ..s }).with_result(0, stat_p),
                no_busy_error: false,
                start_rotating: false,
            }
        } else if cmd == CDL_PAUSE {
            let stat_p = s.stat_p & !STATUS_READ;
            CdReply {
                state: (CdState { stat_p, stat: COMPLETE, ..s }).with_result(0, stat_p),
                no_busy_error: false,
                start_rotating: false,
            }
        } else if cmd == CDL_SEEKL || cmd == CDL_SEEKP {
            let stat_p = (s.stat_p | STATUS_ROTATING) & !STATUS_SEEK;
            CdReply {
                state: (CdState { stat_p, seeked: 1, stat: COMPLETE, ..s }).with_result(
                    0,
                    stat_p,
                ).located(),
                no_busy_error: false,
                start_rotating: false,
            }
        } else if cmd == CDL_READTOC {
            CdReply {
                state: CdState { stat: COMPLETE, ..s },
                no_busy_error: true,
                start_rotating: false,
            }
        } else {
            s.unknown_reply()
        }
    }

    /// The state with an error response of two bytes.
    pub open spec fn failed(self, code: u8) -> CdState {
        (CdState { stat: DISK_ERROR, ..self.sized(2) }).with_result(
            0,
            self.stat_p | STATUS_ERROR,
        ).with_result(1, code)
    }

    /// The response to a command that does not exist.
    pub open spec fn unknown_reply(self) -> CdReply {
        CdReply {
            state: self.failed(ERROR_INVALIDCMD),
            no_busy_error: false,
            start_rotating: false,
        }
    }

    /// The response numbered `irq`.
    pub open spec fn reply(self, irq: u16) -> CdReply {
        if irq < 0x100 {
            self.first_reply(irq as u8)
        } else if irq < 0x200 {
            self.second_reply((irq - 0x100) as u8)
        } else {
            self.unknown_reply()
        }
    }

    /// The state after a response has been given: a stopped drive is started if
    /// the response says so, and a drive that is not ready answers with an
    /// error unless the response is given regardless.
    pub open spec fn settled(reply: CdReply) -> CdState {
        let s = reply.state;
        let t = if s.drive_state == DRIVESTATE_STOPPED && reply.start_rotating {
            CdState {
                drive_state: DRIVESTATE_STANDBY,
                stat_p: s.stat_p | STATUS_ROTATING,
                ..s
            }
        } else {
            s
        };
        let busy = t.drive_state == DRIVESTATE_LID_OPEN || t.drive_state == DRIVESTATE_RESCAN_CD
            || t.drive_state == DRIVESTATE_PREPARE_CD;
        let u = if !reply.no_busy_error && busy {
            t.failed(ERROR_NOTREADY)
        } else {
            t
        };
        CdState { param_c: 0, ..u }
    }

    /// The state with the acknowledgement of a command at hand.
    pub open spec fn acknowledging(self) -> CdState {
        (CdState { ctrl: self.ctrl & !BUSYSTS, stat: ACKNOWLEDGE, ..self.sized(1) }).with_result(
            0,
            self.stat_p,
        )
    }

    /// The state after a command's time has come. While an earlier response has
    /// not been acknowledged it is put off; a repeated one is given again later.
    pub open spec fn interrupted(self) -> CdState {
        if self.stat != 0 {
            self.asked(CdIrqType::Command, IRQ_RESCHEDULE)
        } else {
            let s = self.acknowledging();
            if s.irq_repeated != 0 {
                (CdState { irq_repeated: 0, param_c: 0, ..s }).asked(
                    CdIrqType::Command,
                    s.e_cycle,
                )
            } else {
                CdState::settled((CdState { irq: 0, ..s }).reply(self.irq))
            }
        }
    }

    /// The state after a sector's time has come.
    pub open spec fn sector_read(self) -> CdState {
        if !self.reading {
            self
        } else if self.irq != 0 || self.stat != 0 {
            self.asked(CdIrqType::Read, IRQ_RESCHEDULE)
        } else {
            let stat_p = (self.stat_p | (STATUS_READ | STATUS_ROTATING)) & !STATUS_SEEK;
            let s = (CdState { stat_p, seeked: 1, ..self.sized(1) }).with_result(
                0,
                stat_p,
            ).sector_loaded();
            let base: u32 = if s.mode & 0x80 != 0 {
                (CD_READ_TIME / 2) as u32
            } else {
                CD_READ_TIME
            };
            let delay: u32 = if s.location_changed {
                (base * 30) as u32
            } else {
                base
            };
            (CdState {
                set_sector_play: next_msf(s.set_sector_play),
                ctrl: s.ctrl | DRQSTS,
                read: false,
                location_changed: false,
                stat: DATA_READY,
                ..s
            }).asked(CdIrqType::Read, delay)
        }
    }

    /// Whether that raises the interrupt line.
    pub open spec fn sector_read_raises(self) -> bool {
        self.reading && self.irq == 0 && self.stat == 0 && self.sector_read().raises()
    }

    /// The state after the next step of the drive: a rescanned disc is
    /// prepared, then the drive stands by.
    pub open spec fn lid_stepped(self) -> CdState {
        if self.drive_state == DRIVESTATE_STANDBY {
            CdState { stat_p: self.stat_p & !STATUS_SEEK, ..self }
        } else if self.drive_state == DRIVESTATE_RESCAN_CD {
            (CdState {
                stat_p: self.stat_p | STATUS_ROTATING,
                drive_state: DRIVESTATE_PREPARE_CD,
                ..self
            }).asked(CdIrqType::Lid, (CD_READ_TIME * 150) as u32)
        } else if self.drive_state == DRIVESTATE_PREPARE_CD {
            (CdState {
                stat_p: self.stat_p | STATUS_SEEK,
                drive_state: DRIVESTATE_STANDBY,
                ..self
            }).asked(CdIrqType::Lid, (CD_READ_TIME * 26) as u32)
        } else {
            self
        }
    }

    /// The user data of a sector: 2048 bytes after the sync pattern and header.
    pub open spec fn user_data(self, lba: int) -> Option<Seq<u8>> {
        if lba * 2352 + 2352 <= self.disc.len() {
            Some(self.disc.subrange(lba * 2352 + 24, lba * 2352 + 2072))
        } else {
            None
        }
    }
}

/// What the nibbles of a byte can be.
proof fn lemma_nibbles(b: u8)
    ensures
        (b >> 4) <= 15,
        (b & 0x0F) <= 15,
{
    crate::bits::lemma_byte_of(b, 0);
}

fn bcd_to_dec(bcd: u8) -> (n: u8)
    ensures
        n == bcd_value(bcd),
        n <= 165,
{
    proof {
        lemma_nibbles(bcd);
    }
    (bcd >> 4) * 10 + (bcd & 0x0F)
}

/// Moves an address on by one sector.
fn inc_msf(msf: &mut [u8; 3])
    ensures
        *final(msf) == next_msf(*old(msf)),
{
    let mut f: u8 = bcd_to_dec(msf[2]) + 1;
    let mut s: u8 = bcd_to_dec(msf[1]);
    let mut m: u8 = bcd_to_dec(msf[0]);
    if f >= 75 {
        f = 0;
        s += 1;
    }
    if s >= 60 {
        s = 0;
        m += 1;
    }
    msf[0] = ((m / 10) << 4) | (m % 10);
    msf[1] = ((s / 10) << 4) | (s % 10);
    msf[2] = ((f / 10) << 4) | (f % 10);
    assert(*msf =~= next_msf(*old(msf)));
}

/// The sector number of an address.
fn lba_of(msf: &[u8; 3]) -> (lba: u32)
    ensures
        lba == msf_lba(*msf),
        lba <= 755_040,
{
    let m: u32 = bcd_to_dec(msf[0]) as u32;
    let s: u32 = bcd_to_dec(msf[1]) as u32;
    let f: u32 = bcd_to_dec(msf[2]) as u32;
    (m * 60 + s) * 75 + f
}

impl CdRom {
    pub open spec fn wf(&self) -> bool {
        self@.wf()
    }

    /// A controller after power-on, without a disc.
    pub fn new() -> (cd: CdRom)
        ensures
            cd@ == CdState::initial(),
            cd.wf(),
    {
        let cd = CdRom {
            ctrl: 0,
            stat: NO_INTR,
            stat_p: STATUS_ROTATING,
            reg2: 0x1F,
            cmd: 0,
            param: [0; 8],
            param_c: 0,
            result: [0; 16],
            result_c: 0,
            result_p: 0,
            result_ready: 0,
            irq: 0,
            irq_repeated: 0,
            e_cycle: 0,
            drive_state: DRIVESTATE_STANDBY,
            mode: 0,
            muted: false,
            reading: false,
            play: false,
            read: false,
            seeked: 1,
            transfer: [0; 2352],
            transfer_index: 0,
            set_sector: [0, 0, 0],
            set_sector_play: [0, 0, 0],
            setloc_pending: false,
            location_changed: false,
            file: 1,
            channel: 1,
            has_disc: false,
            pending_irqs: Vec::new(),
            disc_data: Vec::new(),
        };
        proof {
            let s = CdState::initial();
            assert(cd@.param =~= s.param);
            assert(cd@.result =~= s.result);
            assert(cd@.transfer =~= s.transfer);
        }
        cd
    }

    /// Inserts a disc, given as a raw image with 2352 bytes per sector.
    pub fn load_disc(&mut self, image: Vec<u8>)
        requires
            old(self).wf(),
        ensures
            final(self)@ == (CdState { disc: image@, has_disc: true, ..old(self)@ }),
            final(self).wf(),
    {
        self.disc_data = image;
        self.has_disc = true;
    }

    /// The raw sector at an address, empty if the image does not hold it.
    pub fn read_sector(&self, msf: &[u8; 3]) -> (sector: &[u8])
        ensures
            sector@ == (if msf_lba(*msf) * 2352 + 2352 <= self@.disc.len() {
                self@.disc.subrange(msf_lba(*msf) * 2352, msf_lba(*msf) * 2352 + 2352)
            } else {
                Seq::empty()
            }),
    {
        let offset: usize = lba_of(msf) as usize * SECTOR_SIZE;
        let disc: &[u8] = self.disc_data.as_slice();
        if offset + SECTOR_SIZE <= disc.len() {
            vstd::slice::slice_subrange(disc, offset, offset + SECTOR_SIZE)
        } else {
            vstd::slice::slice_subrange(disc, 0, 0)
        }
    }

    /// The user data of a sector, if the image holds it.
    pub fn read_sector_data(&self, lba: u32) -> (data: Option<&[u8]>)
        ensures
            match (data, self@.user_data(lba as int)) {
                (Some(d), Some(s)) => d@ == s && d@.len() == 2048,
                (None, None) => true,
                _ => false,
            },
    {
        let start: u64 = lba as u64 * 2352;
        let disc: &[u8] = self.disc_data.as_slice();
        if start + 2352 <= disc.len() as u64 {
            let offset: usize = start as usize;
            Some(vstd::slice::slice_subrange(disc, offset + 24, offset + 24 + 2048))
        } else {
            None
        }
    }

    pub fn has_disc(&self) -> (r: bool)
        ensures
            r == self@.has_disc,
    {
        self.has_disc
    }

    fn set_result_size(&mut self, size: u8)
        ensures
            final(self)@ == old(self)@.sized(size),
    {
        self.result_p = 0;
        self.result_c = size;
        self.result_ready = 1;
    }

    /// Whether the response at hand raises the interrupt line.
    fn fire_irq(&self) -> (raised: bool)
        ensures
            raised == self@.raises(),
    {
        self.stat & self.reg2 != 0
    }

    fn ask(&mut self, irq_type: CdIrqType, delay: u32)
        ensures
            final(self)@ == old(self)@.asked(irq_type, delay),
    {
        self.pending_irqs.push(CdInterrupt { irq_type, delay });
    }

    fn add_irq_queue(&mut self, irq: u16, ecycle: u32)
        ensures
            final(self)@ == old(self)@.queued(irq, ecycle),
    {
        if self.irq != 0 && (irq == self.irq || irq.wrapping_add(0x100) == self.irq) {
            self.irq_repeated = 1;
        } else {
            self.irq = irq;
            self.e_cycle = ecycle;
        }
        self.ask(CdIrqType::Command, ecycle);
    }

    fn stop_reading(&mut self)
        ensures
            final(self)@ == old(self)@.reading_stopped(),
    {
        self.reading = false;
        self.stat_p &= !(STATUS_READ | STATUS_SEEK);
    }

    fn stop_cdda(&mut self)
        ensures
            final(self)@ == old(self)@.cdda_stopped(),
    {
        if self.play {
            self.stat_p &= !STATUS_PLAY;
            self.play = false;
        }
    }

    /// Makes a set location the current one.
    fn apply_setloc(&mut self)
        ensures
            final(self)@ == old(self)@.located(),
    {
        if self.setloc_pending {
            self.set_sector_play = self.set_sector;
            self.setloc_pending = false;
            self.location_changed = true;
        }
    }

    /// Moves on from a byte of sector data: starts over at the end of the
    /// window, and ends the transfer at the start.
    fn adjust_transfer_index(&mut self)
        requires
            old(self).wf(),
        ensures
            final(self)@ == old(self)@.byte_taken(),
            final(self).wf(),
    {
        self.transfer_index += 1;
        let size: u8 = self.mode & 0x30;
        let buf_size: usize = if size == 0x20 || size == 0x10 {
            2340
        } else {
            2060
        };
        if self.transfer_index >= buf_size {
            self.transfer_index -= buf_size;
        }
        if self.transfer_index == 0 {
            self.ctrl &= !DRQSTS;
            self.read = false;
        }
    }

    /// Reads a port.
    pub fn read(&mut self, port: u32) -> (value: u8)
        requires
            old(self).wf(),
        ensures
            value == old(self)@.port(port),
            final(self)@ == old(self)@.port_read(port),
            final(self).wf(),
    {
        match port {
            0 => {
                if self.result_ready != 0 {
                    self.ctrl |= RSLRRDY;
                } else {
                    self.ctrl &= !RSLRRDY;
                }
                self.ctrl |= PRMEMPT | PRMWRDY;
                self.ctrl
            },
            1 => {
                let p: u8 = self.result_p & 0xF;
                proof {
                    lemma_nibbles(self.result_p);
                }
                let ret: u8 = if p < self.result_c {
                    self.result[p as usize]
                } else {
                    0
                };
                self.result_p = self.result_p.wrapping_add(1);
                if self.result_p == self.result_c {
                    self.result_ready = 0;
                }
                ret
            },
            2 => {
                if !self.read {
                    self.ctrl &= !DRQSTS;
                    0
                } else {
                    let ret: u8 = self.transfer[self.transfer_index];
                    self.adjust_transfer_index();
                    ret
                }
            },
            3 => {
                if self.ctrl & 1 != 0 {
                    self.stat | 0xE0
                } else {
                    self.reg2 | 0xE0
                }
            },
            _ => 0,
        }
    }

    /// Takes the address for the next seek or read from the parameters.
    fn latch_location(&mut self)
        ensures
            final(self)@ == (CdState {
                set_sector: parameter_msf(old(self)@.param),
                setloc_pending: true,
                ..old(self)@
            }),
    {
        self.set_sector = [self.param[0], self.param[1], self.param[2]];
        self.setloc_pending = true;
    }

    /// Takes a command byte; the response comes later.
    fn start_command(&mut self, value: u8)
        requires
            old(self).wf(),
        ensures
            final(self)@ == old(self)@.commanded(value),
            final(self).wf(),
    {
        self.cmd = value;
        self.result_ready = 0;
        self.ctrl |= BUSYSTS;
        self.add_irq_queue(value as u16, 0x800);
        self.take_effect(value);
    }

    /// Does what a command does at once.
    fn take_effect(&mut self, value: u8)
        requires
            old(self).wf(),
        ensures
            final(self)@ == old(self)@.takes_effect(value),
            final(self).wf(),
    {
        match value {
            CDL_READN | CDL_READS | CDL_PAUSE => {
                self.stop_cdda();
                self.stop_reading();
            },
            CDL_INIT | CDL_RESET => {
                self.seeked = 1;
                self.stop_cdda();
                self.stop_reading();
            },
            CDL_SETMODE => {
                self.mode = self.param[0];
            },
            CDL_SETLOC => {
                if self.param_c >= 3 {
                    self.latch_location();
                }
            },
            _ => {},
        }
    }

    /// Writes a port. Returns whether that raises the interrupt line.
    pub fn write(&mut self, port: u32, value: u8) -> (raised: bool)
        requires
            old(self).wf(),
        ensures
            raised == old(self)@.write_raises(port, value),
            final(self)@ == old(self)@.port_written(port, value),
            final(self).wf(),
    {
        match port {
            0 => {
                self.ctrl = (value & 3) | (self.ctrl & !3u8);
                false
            },
            1 => {
                if self.ctrl & 3 == 0 {
                    self.start_command(value);
                }
                false
            },
            2 => {
                let index: u8 = self.ctrl & 3;
                if index == 0 {
                    if self.param_c < 8 {
                        self.param[self.param_c as usize] = value;
                        self.param_c += 1;
                    }
                    false
                } else if index == 1 {
                    self.reg2 = value;
                    self.fire_irq()
                } else {
                    false
                }
            },
            3 => {
                let index: u8 = self.ctrl & 3;
                if index == 0 {
                    if value & 0x80 != 0 && !self.read {
                        self.read = true;
                        self.transfer_index = if self.mode & 0x30 == 0x20 {
                            0
                        } else {
                            12
                        };
                    }
                } else if index == 1 {
                    self.stat &= !value;
                    if value & 0x40 != 0 {
                        self.param_c = 0;
                    }
                }
                false
            },
            _ => false,
        }
    }

    /// Fails a command with an error response.
    fn fail(&mut self, code: u8)
        requires
            old(self).wf(),
        ensures
            final(self)@ == old(self)@.failed(code),
            final(self).wf(),
    {
        self.set_result_size(2);
        self.result[0] = self.stat_p | STATUS_ERROR;
        self.result[1] = code;
        self.stat = DISK_ERROR;
    }

    /// Where the current sector starts in the image.
    fn current_offset(&self) -> (offset: usize)
        ensures
            offset == self@.sector_offset(),
            offset <= 1_775_854_080,
    {
        let msf: [u8; 3] = self.set_sector_play;
        lba_of(&msf) as usize * SECTOR_SIZE
    }

    /// Puts the header of the current sector into the sector buffer.
    fn load_header(&mut self)
        requires
            old(self).wf(),
        ensures
            final(self)@ == old(self)@.header_loaded(),
            final(self).wf(),
    {
        let offset: usize = self.current_offset();
        if offset + 20 <= self.disc_data.len() {
            let mut i: usize = 0;
            while i < 8
                invariant
                    i <= 8,
                    old(self).wf(),
                    offset == old(self)@.sector_offset(),
                    offset <= 1_775_854_080,
                    offset + 20 <= old(self)@.disc.len(),
                    self.transfer@.len() == SECTOR_SIZE,
                    self@ == (CdState { transfer: self.transfer@, ..old(self)@ }),
                    forall|j: int|
                        0 <= j < SECTOR_SIZE ==> self.transfer@[j] == (if j < i {
                            old(self)@.disc[offset + 12 + j]
                        } else {
                            old(self)@.transfer[j]
                        }),
                decreases 8 - i,
            {
                self.transfer[i] = self.disc_data[offset + 12 + i];
                i += 1;
            }
            assert(self.transfer@ =~= old(self)@.header_loaded().transfer);
        }
    }

    /// Puts the current sector into the sector buffer.
    fn load_sector(&mut self)
        requires
            old(self).wf(),
        ensures
            final(self)@ == old(self)@.sector_loaded(),
            final(self).wf(),
    {
        let offset: usize = self.current_offset();
        let held: bool = offset + SECTOR_SIZE <= self.disc_data.len();
        let mut i: usize = 0;
        while i < SECTOR_SIZE
            invariant
                i <= SECTOR_SIZE,
                old(self).wf(),
                offset == old(self)@.sector_offset(),
                offset <= 1_775_854_080,
                held == (offset + SECTOR_SIZE <= old(self)@.disc.len()),
                self.transfer@.len() == SECTOR_SIZE,
                self@ == (CdState { transfer: self.transfer@, ..old(self)@ }),
                forall|j: int|
                    0 <= j < i ==> self.transfer@[j] == (if held && j < DATA_SIZE {
                        old(self)@.disc[offset + 12 + j]
                    } else {
                        0u8
                    }),
            decreases SECTOR_SIZE - i,
        {
            self.transfer[i] = if held && i < DATA_SIZE {
                self.disc_data[offset + 12 + i]
            } else {
                0
            };
            i += 1;
        }
        assert(self.transfer@ =~= old(self)@.sector_loaded().transfer);
    }

    /// Gives the first eight bytes of the sector buffer as a result.
    fn report_header(&mut self)
        requires
            old(self).wf(),
        ensures
            final(self)@ == old(self)@.header_reported(),
            final(self).wf(),
    {
        self.set_result_size(8);
        let ghost sized = self@;
        let mut i: usize = 0;
        while i < 8
            invariant
                i <= 8,
                sized == old(self)@.sized(8),
                sized.wf(),
                self.result@.len() == 16,
                self@ == (CdState { result: self.result@, ..sized }),
                forall|j: int|
                    0 <= j < 16 ==> self.result@[j] == (if j < i {
                        sized.transfer[j]
                    } else {
                        sized.result[j]
                    }),
            decreases 8 - i,
        {
            self.result[i] = self.transfer[i];
            i += 1;
        }
        assert(self.result@ =~= old(self)@.header_reported().result);
    }

    /// Gives zeroes as a result of eight bytes, from byte `from` on.
    fn report_zeroes(&mut self, from: usize)
        requires
            old(self).wf(),
            from <= 8,
        ensures
            final(self)@ == old(self)@.zeroes_reported(from as int),
            final(self).wf(),
    {
        self.set_result_size(8);
        let ghost sized = self@;
        let mut i: usize = from;
        while i < 8
            invariant
                from <= i <= 8,
                sized == old(self)@.sized(8),
                sized.wf(),
                self.result@.len() == 16,
                self@ == (CdState { result: self.result@, ..sized }),
                forall|j: int|
                    0 <= j < 16 ==> self.result@[j] == (if from <= j < i {
                        0u8
                    } else {
                        sized.result[j]
                    }),
            decreases 8 - i,
        {
            self.result[i] = 0;
            i += 1;
        }
        assert(self.result@ =~= old(self)@.zeroes_reported(from as int).result);
    }

    /// Gives the first response to a command. Returns whether it is given even
    /// while the drive is not ready, and whether it starts a stopped drive.
    #[verifier::rlimit(100)]
    fn first_reply(&mut self, cmd: u8) -> (flags: (bool, bool))
        requires
            old(self).wf(),
        ensures
            old(self)@.first_reply(cmd) == (CdReply {
                state: final(self)@,
                no_busy_error: flags.0,
                start_rotating: flags.1,
            }),
            final(self).wf(),
    {
        match cmd {
            CDL_GETSTAT => {
                if self.drive_state != DRIVESTATE_LID_OPEN {
                    self.stat_p &= !STATUS_SHELLOPEN;
                }
                (true, false)
            },
            CDL_SETLOC => (false, false),
            CDL_SETFILTER => {
                self.file = self.param[0];
                self.channel = self.param[1];
                (false, false)
            },
            CDL_MUTE => {
                self.muted = true;
                (false, false)
            },
            CDL_DEMUTE => {
                self.muted = false;
                (false, false)
            },
            CDL_SETMODE => (true, false),
            CDL_GETPARAM => {
                self.set_result_size(5);
                self.result[1] = self.mode;
                self.result[2] = 0;
                self.result[3] = self.file;
                self.result[4] = self.channel;
                (true, false)
            },
            CDL_GETLOCL => {
                self.report_header();
                (false, false)
            },
            CDL_GETLOCP => {
                self.report_zeroes(0);
                (false, false)
            },
            CDL_GETTN => {
                if !self.has_disc {
                    self.stat = DISK_ERROR;
                    self.result[0] = self.result[0] | STATUS_ERROR;
                } else {
                    self.set_result_size(3);
                    self.result[1] = 1;
                    self.result[2] = 1;
                }
                (false, false)
            },
            CDL_GETTD => {
                if !self.has_disc {
                    self.stat = DISK_ERROR;
                    self.result[0] = self.result[0] | STATUS_ERROR;
                } else {
                    self.set_result_size(4);
                    self.result[0] = self.stat_p;
                    self.result[1] = 0;
                    self.result[2] = 2;
                }
                (false, false)
            },
            CDL_TEST => {
                if self.param[0] == 0x20 {
                    self.set_result_size(4);
                    self.result[0] = 0x98;
                    self.result[1] = 0x06;
                    self.result[2] = 0x10;
                    self.result[3] = 0xC3;
                }
                (true, false)
            },
            CDL_ID => {
                self.add_irq_queue(CDL_ID as u16 + 0x100, 20480);
                (false, false)
            },
            CDL_INIT => {
                self.stat_p |= STATUS_SHELLOPEN;
                self.drive_state = DRIVESTATE_RESCAN_CD;
                self.ask(CdIrqType::Lid, 20480);
                (true, true)
            },
            CDL_RESET => {
                self.muted = false;
                self.mode = 0x20;
                self.add_irq_queue(CDL_RESET as u16 + 0x100, 4_100_000);
                (true, true)
            },
            CDL_STOP => {
                self.stop_cdda();
                self.stop_reading();
                let delay: u32 = if self.drive_state == DRIVESTATE_STANDBY {
                    CD_READ_TIME * 30 / 2
                } else {
                    0x800
                };
                self.drive_state = DRIVESTATE_STOPPED;
                self.add_irq_queue(CDL_STOP as u16 + 0x100, delay);
                (false, false)
            },
            CDL_PAUSE => {
                let delay: u32 = if self.drive_state == DRIVESTATE_STANDBY {
                    7000
                } else {
                    1_000_000
                };
                self.add_irq_queue(CDL_PAUSE as u16 + 0x100, delay);
                self.ctrl |= BUSYSTS;
                (false, false)
            },
            CDL_STANDBY => {
                self.add_irq_queue(CDL_STANDBY as u16 + 0x100, CD_READ_TIME * 125 / 2);
                (false, true)
            },
            CDL_SEEKL | CDL_SEEKP => {
                self.stop_cdda();
                self.stop_reading();
                self.stat_p |= STATUS_SEEK;
                let delay: u32 = if self.seeked == 1 {
                    0x800
                } else {
                    CD_READ_TIME * 4
                };
                self.seeked = 0;
                self.add_irq_queue(cmd as u16 + 0x100, delay);
                (false, true)
            },
            CDL_READN | CDL_READS => {
                self.apply_setloc();
                self.reading = true;
                self.load_header();
                self.stat_p |= STATUS_READ;
                self.stat_p &= !STATUS_SEEK;
                self.result[0] = self.stat_p;
                let delay: u32 = if self.mode & 0x80 != 0 {
                    CD_READ_TIME
                } else {
                    CD_READ_TIME * 2
                };
                self.ask(CdIrqType::Read, delay);
                (false, true)
            },
            CDL_READTOC => {
                self.add_irq_queue(CDL_READTOC as u16 + 0x100, CD_READ_TIME * 180 / 4);
                (true, true)
            },
            _ => {
                self.fail(ERROR_INVALIDCMD);
                (false, false)
            },
        }
    }

    /// Gives the second response to a command, with the same flags.
    #[verifier::rlimit(100)]
    fn second_reply(&mut self, cmd: u8) -> (flags: (bool, bool))
        requires
            old(self).wf(),
        ensures
            old(self)@.second_reply(cmd) == (CdReply {
                state: final(self)@,
                no_busy_error: flags.0,
                start_rotating: flags.1,
            }),
            final(self).wf(),
    {
        match cmd {
            CDL_ID => {
                if !self.has_disc {
                    self.report_zeroes(2);
                    self.result[0] = 0x08;
                    self.result[1] = 0x40;
                    self.stat = DISK_ERROR;
                } else {
                    self.set_result_size(8);
                    self.result[0] = self.stat_p;
                    self.result[1] = 0;
                    self.result[2] = 0;
                    self.result[3] = 0;
                    self.result[4] = 0x50;
                    self.result[5] = 0x43;
                    self.result[6] = 0x53;
                    self.result[7] = 0x58;
                    self.stat = COMPLETE;
                }
                (false, false)
            },
            CDL_RESET | CDL_STANDBY => {
                self.stat = COMPLETE;
                (false, false)
            },
            CDL_STOP => {
                self.stat_p &= !STATUS_ROTATING;
                self.result[0] = self.stat_p;
                self.stat = COMPLETE;
                (false, false)
            },
            CDL_PAUSE => {
                self.stat_p &= !STATUS_READ;
                self.result[0] = self.stat_p;
                self.stat = COMPLETE;
                (false, false)
            },
            CDL_SEEKL | CDL_SEEKP => {
                self.stat_p |= STATUS_ROTATING;
                self.stat_p &= !STATUS_SEEK;
                self.result[0] = self.stat_p;
                self.seeked = 1;
                self.stat = COMPLETE;
                self.apply_setloc();
                (false, false)
            },
            CDL_READTOC => {
                self.stat = COMPLETE;
                (true, false)
            },
            _ => {
                self.fail(ERROR_INVALIDCMD);
                (false, false)
            },
        }
    }

    /// Ends a response: starts a stopped drive if asked to, and fails the
    /// command if the drive is not ready.
    fn settle(&mut self, no_busy_error: bool, start_rotating: bool)
        requires
            old(self).wf(),
        ensures
            final(self)@ == CdState::settled(
                (CdReply { state: old(self)@, no_busy_error, start_rotating }),
            ),
            final(self).wf(),
    {
        if self.drive_state == DRIVESTATE_STOPPED && start_rotating {
            self.drive_state = DRIVESTATE_STANDBY;
            self.stat_p |= STATUS_ROTATING;
        }
        if !no_busy_error {
            match self.drive_state {
                DRIVESTATE_LID_OPEN | DRIVESTATE_RESCAN_CD | DRIVESTATE_PREPARE_CD => {
                    self.fail(ERROR_NOTREADY);
                },
                _ => {},
            }
        }
        self.param_c = 0;
    }

    /// A command's time has come: gives its response. Returns whether that
    /// raises the interrupt line.
    pub fn interrupt(&mut self) -> (raised: bool)
        requires
            old(self).wf(),
        ensures
            final(self)@ == old(self)@.interrupted(),
            raised == (old(self)@.stat == 0 && final(self)@.raises()),
            final(self).wf(),
    {
        let irq: u16 = self.irq;
        if self.stat != 0 {
            self.ask(CdIrqType::Command, IRQ_RESCHEDULE);
            return false;
        }
        self.ctrl &= !BUSYSTS;
        self.set_result_size(1);
        self.result[0] = self.stat_p;
        self.stat = ACKNOWLEDGE;
        assert(self@ == old(self)@.acknowledging());
        if self.irq_repeated != 0 {
            self.irq_repeated = 0;
            let delay: u32 = self.e_cycle;
            self.ask(CdIrqType::Command, delay);
            self.param_c = 0;
            return self.fire_irq();
        }
        self.irq = 0;
        let flags: (bool, bool) = if irq < 0x100 {
            self.first_reply(irq as u8)
        } else if irq < 0x200 {
            self.second_reply((irq - 0x100) as u8)
        } else {
            self.fail(ERROR_INVALIDCMD);
            (false, false)
        };
        self.settle(flags.0, flags.1);
        self.fire_irq()
    }

    /// A sector's time has come: puts it into the sector buffer and moves on to
    /// the next one. Returns whether that raises the interrupt line.
    pub fn read_interrupt(&mut self) -> (raised: bool)
        requires
            old(self).wf(),
        ensures
            final(self)@ == old(self)@.sector_read(),
            raised == old(self)@.sector_read_raises(),
            final(self).wf(),
    {
        if !self.reading {
            return false;
        }
        if self.irq != 0 || self.stat != 0 {
            self.ask(CdIrqType::Read, IRQ_RESCHEDULE);
            return false;
        }
        self.set_result_size(1);
        self.stat_p |= STATUS_READ | STATUS_ROTATING;
        self.stat_p &= !STATUS_SEEK;
        self.result[0] = self.stat_p;
        self.seeked = 1;
        self.load_sector();
        inc_msf(&mut self.set_sector_play);
        self.ctrl |= DRQSTS;
        self.read = false;
        let base: u32 = if self.mode & 0x80 != 0 {
            CD_READ_TIME / 2
        } else {
            CD_READ_TIME
        };
        let delay: u32 = if self.location_changed {
            base * 30
        } else {
            base
        };
        self.location_changed = false;
        self.stat = DATA_READY;
        self.ask(CdIrqType::Read, delay);
        self.fire_irq()
    }

    /// Moves the drive on after its lid or a seek.
    pub fn lid_seek_interrupt(&mut self)
        requires
            old(self).wf(),
        ensures
            final(self)@ == old(self)@.lid_stepped(),
            final(self).wf(),
    {
        match self.drive_state {
            DRIVESTATE_STANDBY => {
                self.stat_p &= !STATUS_SEEK;
            },
            DRIVESTATE_RESCAN_CD => {
                self.stat_p |= STATUS_ROTATING;
                self.drive_state = DRIVESTATE_PREPARE_CD;
                self.ask(CdIrqType::Lid, CD_READ_TIME * 150);
            },
            DRIVESTATE_PREPARE_CD => {
                self.stat_p |= STATUS_SEEK;
                self.drive_state = DRIVESTATE_STANDBY;
                self.ask(CdIrqType::Lid, CD_READ_TIME * 26);
            },
            _ => {},
        }
    }

    /// Whether sector data is there.
    pub fn read_ctrl_drq(&self) -> (r: bool)
        ensures
            r == (self@.ctrl & DRQSTS != 0),
    {
        self.ctrl & DRQSTS != 0
    }

    /// Whether the host has asked for the sector data.
    pub fn is_read_active(&self) -> (r: bool)
        ensures
            r == self@.read,
    {
        self.read
    }

    /// Fills `dest` with sector data, if the host has asked for it.
    pub fn dma_read(&mut self, dest: &mut [u8])
        requires
            old(self).wf(),
        ensures
            final(self).wf(),
            old(self)@.read ==> final(self)@ == old(self)@.bytes_taken(old(dest)@.len()),
            old(self)@.read ==> final(dest)@ == old(self)@.data_bytes(old(dest)@.len()),
            !old(self)@.read ==> final(self)@ == old(self)@ && final(dest)@ == old(dest)@,
    {
        if !self.read {
            return;
        }
        let ghost from = self@;
        let n: usize = dest.len();
        let mut i: usize = 0;
        while i < n
            invariant
                i <= n,
                n == dest@.len(),
                dest@.len() == old(dest)@.len(),
                self.wf(),
                self@ == from.bytes_taken(i as nat),
                forall|j: int|
                    0 <= j < i ==> dest@[j] == from.bytes_taken(j as nat).data_byte(),
            decreases n - i,
        {
            dest[i] = self.transfer[self.transfer_index];
            self.adjust_transfer_index();
            i += 1;
        }
        assert(dest@ =~= from.data_bytes(n as nat));
    }

    /// Hands over the delayed events asked for since the last call.
    pub fn take_pending(&mut self) -> (events: Vec<CdInterrupt>)
        requires
            old(self).wf(),
        ensures
            events@ == old(self)@.pending,
            final(self)@ == (CdState { pending: Seq::empty(), ..old(self)@ }),
            final(self).wf(),
    {
        let mut events: Vec<CdInterrupt> = Vec::new();
        events.append(&mut self.pending_irqs);
        events
    }
}

} // verus!
