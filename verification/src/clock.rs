//! The monotonic clock's range: whether a span past a given instant can be represented.

use vstd::prelude::*;

use std::time::Instant;

use crate::duration::Duration;

verus! {

/// `std::time::Instant`, held opaque: its value depends on the machine's clock.
#[verifier::external_type_specification]
#[verifier::external_body]
pub struct ExInstant(Instant);

/// `Instant::checked_add`: `Some(base + d)` where the clock can represent that instant,
/// `None` otherwise. Which instants the clock can represent depends on the platform and
/// on `base`, so only this is promised: adding nothing gives an instant (`base` itself).
#[verifier::external_body]
fn instant_checked_add(base: Instant, d: Duration) -> (r: Option<Instant>)
    ensures
        d@ == 0 ==> r is Some,
{
    base.checked_add(std::time::Duration::new(d.as_secs(), d.subsec_nanos()))
}

/// `b` is whether `instant_checked_add` can return `Some` on `base` and `duration`: the
/// answer `Instant::checked_add` gives for exactly these arguments.
pub closed spec fn checked_add_reports(base: Instant, duration: Duration, b: bool) -> bool {
    exists|r: Option<Instant>| call_ensures(instant_checked_add, (base, duration), r) && b == (r is Some)
}

/// Whether the instant `duration` after `base` can be represented by the clock. Beyond an
/// empty span (which always fits), the answer depends on the platform's clock and on
/// `base`, so it is what `Instant::checked_add` reports and nothing more is promised.
pub fn fits_in_instant_clock(base: Instant, duration: Duration) -> (b: bool)
    ensures
        duration@ == 0 ==> b,
        checked_add_reports(base, duration, b),
{
    let r = instant_checked_add(base, duration);
    assert(call_ensures(instant_checked_add, (base, duration), r));
    r.is_some()
}

} // verus!
