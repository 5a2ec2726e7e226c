//! A PlayStation emulation core: an R3000A interpreter, the memory bus with its
//! hardware registers, the GPU command processor and rasterizer, the SPU, the
//! CD-ROM controller, the serial port and the root counters.
//!
//! Every state-changing function is specified as a transition on a mathematical
//! state. Host input and output live outside the library.

pub mod arith;
pub mod basic;
pub mod bits;
pub mod bus;
pub mod cdrom;
pub mod cpu;
pub mod gpu;
pub mod scheduler;
pub mod sio;
pub mod sio_laws;
pub mod spu;
pub mod text;
pub mod text_laws;
pub mod timers;
pub mod word;
