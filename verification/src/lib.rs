//! Line interpreter and packet assembler for a radio telemetry device.
//!
//! A device transmits each position/status report as a short burst of text
//! lines: a header line carrying node and signal-quality data, zero or more
//! field lines (latitude, longitude, satellite count, callsign), and usually
//! a terminating fix-status line.  Lines may be malformed, arrive in odd
//! orders, or be interleaved with unrelated diagnostic output.
//!
//! This crate reconstructs structured [`telemetry::DataPacket`] records from
//! such a stream:
//!
//! * [`deputy_interpreter`] classifies a single line and extracts whatever
//!   typed fields it carries, by tolerant, case-insensitive pattern rules;
//! * [`assembler`] maintains the single in-progress record across lines,
//!   merges partial records field by field without ever regressing a field
//!   from present to absent, and decides when a completed record is emitted.
//!
//! The grammar of the device dialect, the merge semantics and the packet
//! boundary rules are all stated as specification functions and proved of the
//! executable code; [`laws`] states the crate-wide guarantees as proof
//! functions.

pub mod assembler;
pub mod deputy_interpreter;
pub mod laws;
pub mod telemetry;
pub mod text;
