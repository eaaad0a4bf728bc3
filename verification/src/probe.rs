//! What one probe attempt reports.

use vstd::prelude::*;

use crate::duration::Duration;

verus! {

/// Outcome of a single probe attempt.
#[derive(Clone, Copy, Debug)]
pub enum ProbeOutcome {
    Success { rtt: Duration, seq: u16 },
    NoResponse,
}

/// A fatal error from the probe backend (e.g., permission denied on the socket).
/// Non-fatal conditions (host unreachable, timeout) are reported as `NoResponse`.
#[derive(Debug)]
pub struct ProbeError {
    pub message: String,
}

} // verus!
