//! Waits until a target is stable: N consecutive matching probes.
//!
//! The library holds the logic: duration and target parsing, the ICMP echo
//! packet format and checksum, the progress output, and the scheduler's
//! decisions as a state machine. The program around it does the I/O.

pub mod duration;
pub mod text;
pub mod cli;
pub mod target;
pub mod probe;
pub mod icmp;
pub mod output;
pub mod scheduler;
pub mod clock;
