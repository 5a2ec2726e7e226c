//! Plain models of two devices, for machines that do without their details.

pub mod laws;
pub mod spu;
pub mod timers;
