//! Driver for parallel-in/serial-out shift registers (74HC165-class chips)
//! accessed over three GPIO lines: a latch output, a clock output and a
//! serial data input.
//!
//! The driver itself owns no hardware: the three lines and the timing source
//! are injected as capabilities ([`pins::OutputPin`], [`pins::DataInput`],
//! [`pins::DelayProvider`]). [`reader::ShiftIn::read`] performs one full
//! capture-and-shift-out cycle and returns the captured bytes; its contract
//! pins down the exact latch/clock transition sequence, the delay phases and
//! the MSB-first, back-to-front byte packing. [`sim`] provides simulated
//! lines with verified models, for tests and bring-up.

pub mod pins;
pub mod reader;
pub mod sim;
