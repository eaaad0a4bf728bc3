//! Command-line values: the options and the duration syntax they accept.

use vstd::prelude::*;

use std::time::Instant;

use crate::clock::fits_in_instant_clock;
use crate::duration::{Duration, NANOS_PER_MILLI, NANOS_PER_SEC};
use crate::output::Verbosity;
use crate::scheduler::Scheduler;
use crate::target::{parse_target, target_of, TargetSpec};
use crate::text::{chars_of, push_str, string_of};

verus! {

/// The options of one invocation, as the command line gave them.
pub struct Cli {
    /// Time between probe attempts.
    pub interval: Duration,
    /// Number of consecutive matching probes required.
    pub stable: u32,
    /// Maximum total probe attempts; 0 means no limit.
    pub max_tries: u32,
    /// Overall deadline; zero means no deadline.
    pub timeout: Duration,
    /// Wait for the target to stop responding instead.
    pub down: bool,
    /// Suppress progress output.
    pub quiet: bool,
    /// Print each attempt and its result.
    pub verbose: bool,
    /// Target or URL.
    pub target: String,
}

/// The verbosity the flags ask for: quiet wins over verbose.
pub open spec fn verbosity_of(quiet: bool, verbose: bool) -> Verbosity {
    if quiet {
        Verbosity::Quiet
    } else if verbose {
        Verbosity::Verbose
    } else {
        Verbosity::Default
    }
}

/// Why the options cannot start a run, before the target is read: a zero interval, an
/// interval or a deadline past the clock's range (`interval_fits`, `timeout_fits`), or a
/// zero streak.
pub open spec fn option_problem(cli: Cli, interval_fits: bool, timeout_fits: bool) -> Option<Seq<char>> {
    if cli.interval@ == 0 {
        Some("--interval must be > 0 (this is a wait tool, not a flooder)"@)
    } else if !interval_fits {
        Some("--interval is too large"@)
    } else if cli.timeout@ != 0 && !timeout_fits {
        Some("--timeout is too large"@)
    } else if cli.stable == 0 {
        Some("--stable must be > 0"@)
    } else {
        None
    }
}

/// `r` is what checking `cli` gives, where the clock can represent the start plus the
/// interval (`interval_fits`) and plus the timeout (`timeout_fits`): the first problem with
/// the options, else what the target reads as.
pub open spec fn options_checked(cli: Cli, interval_fits: bool, timeout_fits: bool, r: Result<TargetSpec, String>) -> bool {
    match option_problem(cli, interval_fits, timeout_fits) {
        Some(m) => r matches Err(e) && e@ == m,
        None => match (r, target_of(cli.target@)) {
            (Ok(t), Ok((h, l))) => t.spec_host() == h && t.spec_label() == l,
            (Err(e), Err(f)) => e@ == f,
            _ => false,
        },
    }
}

impl Cli {
    /// The verbosity the flags ask for.
    pub fn verbosity(&self) -> (v: Verbosity)
        ensures
            v == verbosity_of(self.quiet, self.verbose),
    {
        if self.quiet {
            Verbosity::Quiet
        } else if self.verbose {
            Verbosity::Verbose
        } else {
            Verbosity::Default
        }
    }

    /// Checks the options, given whether the clock can represent the start plus the
    /// interval (`interval_fits`) and plus the timeout (`timeout_fits`), then reads the target.
    pub fn check_with(&self, interval_fits: bool, timeout_fits: bool) -> (r: Result<TargetSpec, String>)
        ensures
            options_checked(*self, interval_fits, timeout_fits, r),
    {
        if self.interval.is_zero() {
            return Err(string_of("--interval must be > 0 (this is a wait tool, not a flooder)"));
        }
        if !interval_fits {
            return Err(string_of("--interval is too large"));
        }
        if !self.timeout.is_zero() && !timeout_fits {
            return Err(string_of("--timeout is too large"));
        }
        if self.stable == 0 {
            return Err(string_of("--stable must be > 0"));
        }
        parse_target(self.target.as_str())
    }

    /// Checks the options against the clock as it stands at `started_at`, then reads the
    /// target: as `check_with` does, with what the clock can represent from `started_at`
    /// (a zero timeout is no deadline and needs no room).
    pub fn validate(&self, started_at: Instant) -> (r: Result<TargetSpec, String>)
        ensures
            exists|interval_fits: bool, timeout_fits: bool|
                call_ensures(fits_in_instant_clock, (started_at, self.interval), interval_fits) && (
                self.timeout@ == 0 ==> timeout_fits) && (self.timeout@ != 0 ==> call_ensures(
                    fits_in_instant_clock,
                    (started_at, self.timeout),
                    timeout_fits,
                )) && #[trigger] options_checked(*self, interval_fits, timeout_fits, r),
    {
        let interval_fits = fits_in_instant_clock(started_at, self.interval);
        let timeout_fits = if self.timeout.is_zero() {
            true
        } else {
            fits_in_instant_clock(started_at, self.timeout)
        };
        let r = self.check_with(interval_fits, timeout_fits);
        assert(call_ensures(fits_in_instant_clock, (started_at, self.interval), interval_fits));
        assert(options_checked(*self, interval_fits, timeout_fits, r));
        r
    }

    /// The settings of the run: 0 attempts and a zero timeout mean no limit; the label
    /// is the target's.
    pub fn scheduler(&self, target: &TargetSpec) -> (s: Scheduler)
        ensures
            s.interval == self.interval,
            s.stable == self.stable,
            s.max_tries == (if self.max_tries == 0 { None } else { Some(self.max_tries) }),
            s.timeout == (if self.timeout@ == 0 { None } else { Some(self.timeout) }),
            s.down == self.down,
            s.verbosity == verbosity_of(self.quiet, self.verbose),
            s.target_label@ == target.spec_label(),
    {
        Scheduler {
            interval: self.interval,
            stable: self.stable,
            max_tries: if self.max_tries == 0 {
                None
            } else {
                Some(self.max_tries)
            },
            timeout: if self.timeout.is_zero() {
                None
            } else {
                Some(self.timeout)
            },
            down: self.down,
            verbosity: self.verbosity(),
            target_label: string_of(target.label()),
        }
    }
}

/// The unit a duration's suffix names; a bare number is in seconds.
pub enum DurationUnit {
    Millis,
    Secs,
    Mins,
    Hours,
}

pub open spec fn is_ascii_digit(c: char) -> bool {
    '0' <= c && c <= '9'
}

pub open spec fn all_digits(s: Seq<char>) -> bool {
    forall|i: int| 0 <= i < s.len() ==> is_ascii_digit(#[trigger] s[i])
}

/// The number that a string of decimal digits denotes.
pub open spec fn digits_value(s: Seq<char>) -> nat
    decreases s.len(),
{
    if s.len() == 0 {
        0
    } else {
        digits_value(s.drop_last()) * 10 + ((s.last() as nat) - ('0' as nat)) as nat
    }
}

/// The unit that the end of a (non-empty) duration names.
pub open spec fn duration_unit(s: Seq<char>) -> DurationUnit {
    let n = s.len();
    if n >= 2 && s[n - 2] == 'm' && s[n - 1] == 's' {
        DurationUnit::Millis
    } else if s[n - 1] == 's' {
        DurationUnit::Secs
    } else if s[n - 1] == 'm' {
        DurationUnit::Mins
    } else if s[n - 1] == 'h' {
        DurationUnit::Hours
    } else {
        DurationUnit::Secs
    }
}

/// What stands before the unit suffix of a (non-empty) duration.
pub open spec fn duration_digits(s: Seq<char>) -> Seq<char> {
    let n = s.len();
    if n >= 2 && s[n - 2] == 'm' && s[n - 1] == 's' {
        s.take(n - 2)
    } else if s[n - 1] == 's' || s[n - 1] == 'm' || s[n - 1] == 'h' {
        s.take(n - 1)
    } else {
        s
    }
}

/// How many of the unit make one second, in nanoseconds.
pub open spec fn unit_nanos(u: DurationUnit) -> nat {
    match u {
        DurationUnit::Millis => NANOS_PER_MILLI as nat,
        DurationUnit::Secs => NANOS_PER_SEC as nat,
        DurationUnit::Mins => 60 * (NANOS_PER_SEC as nat),
        DurationUnit::Hours => 3600 * (NANOS_PER_SEC as nat),
    }
}

/// How many seconds one of the unit is, for the units of whole seconds.
pub open spec fn unit_secs(u: DurationUnit) -> nat {
    match u {
        DurationUnit::Millis => 0,
        DurationUnit::Secs => 1,
        DurationUnit::Mins => 60,
        DurationUnit::Hours => 3600,
    }
}

/// The text is neither empty nor negative, and what precedes the unit is a whole number.
pub open spec fn duration_well_formed(s: Seq<char>) -> bool {
    &&& s.len() > 0
    &&& s[0] != '-'
    &&& duration_digits(s).len() > 0
    &&& all_digits(duration_digits(s))
}

/// The number is small enough: it fits in `u64`, and so does its count of seconds
/// for minutes and hours.
pub open spec fn duration_in_range(s: Seq<char>) -> bool {
    let v = digits_value(duration_digits(s));
    &&& v <= u64::MAX
    &&& v * unit_secs(duration_unit(s)) <= u64::MAX
}

/// The text denotes a duration.
pub open spec fn duration_accepted(s: Seq<char>) -> bool {
    duration_well_formed(s) && duration_in_range(s)
}

/// The span the text denotes, in nanoseconds.
pub open spec fn duration_value(s: Seq<char>) -> nat {
    digits_value(duration_digits(s)) * unit_nanos(duration_unit(s))
}

/// The message for a text that denotes no duration.
pub open spec fn duration_error(s: Seq<char>) -> Seq<char> {
    if s.len() == 0 {
        "duration cannot be empty"@
    } else if s[0] == '-' {
        "duration cannot be negative"@
    } else if !duration_well_formed(s) {
        "invalid duration '"@ + s + "'; use a whole number with optional ms, s, m, or h suffix"@
    } else {
        "duration '"@ + s + "' is too large"@
    }
}

/// The value of digits grows as digits are added at the end.
proof fn lemma_digits_value_prefix(s: Seq<char>, j: int, k: int)
    requires
        0 <= j <= k <= s.len(),
        all_digits(s),
    ensures
        digits_value(s.take(j)) <= digits_value(s.take(k)),
    decreases k - j,
{
    if j < k {
        lemma_digits_value_prefix(s, j, k - 1);
        assert(s.take(k).drop_last() =~= s.take(k - 1));
        assert(is_ascii_digit(s[k - 1]));
    }
}

/// Reads the digits of `digits` as a number, or `None` where it exceeds `u64::MAX`.
fn parse_digits(digits: &Vec<char>) -> (r: Option<u64>)
    requires
        all_digits(digits@),
    ensures
        r is Some <==> digits_value(digits@) <= u64::MAX,
        r matches Some(v) ==> v == digits_value(digits@),
{
    let n = digits.len();
    let mut acc: u64 = 0;
    let mut i: usize = 0;
    while i < n
        invariant
            n == digits@.len(),
            i <= n,
            all_digits(digits@),
            acc == digits_value(digits@.take(i as int)),
        decreases n - i,
    {
        let c = digits[i];
        assert(is_ascii_digit(digits@[i as int]));
        let d = (c as u32 - '0' as u32) as u64;
        assert(digits@.take(i + 1).drop_last() =~= digits@.take(i as int));
        let next = match acc.checked_mul(10) {
            Some(t) => t.checked_add(d),
            None => None,
        };
        match next {
            Some(v) => {
                acc = v;
                i = i + 1;
            },
            None => {
                proof {
                    lemma_digits_value_prefix(digits@, i + 1, n as int);
                    assert(digits@.take(n as int) =~= digits@);
                }
                return None;
            },
        }
    }
    assert(digits@.take(n as int) =~= digits@);
    Some(acc)
}

/// Reads a duration: a whole number with an optional suffix `ms`, `s`, `m` or `h`
/// (lower case); a bare number is in seconds.
pub fn parse_duration_arg(raw: &str) -> (res: Result<Duration, String>)
    ensures
        res is Ok <==> duration_accepted(raw@),
        res matches Ok(d) ==> d@ == duration_value(raw@),
        res matches Err(e) ==> e@ == duration_error(raw@),
{
    let s = chars_of(raw);
    let n = s.len();
    if n == 0 {
        return Err(string_of("duration cannot be empty"));
    }
    if s[0] == '-' {
        return Err(string_of("duration cannot be negative"));
    }
    let (cut, unit) = if n >= 2 && s[n - 2] == 'm' && s[n - 1] == 's' {
        (n - 2, DurationUnit::Millis)
    } else if s[n - 1] == 's' {
        (n - 1, DurationUnit::Secs)
    } else if s[n - 1] == 'm' {
        (n - 1, DurationUnit::Mins)
    } else if s[n - 1] == 'h' {
        (n - 1, DurationUnit::Hours)
    } else {
        (n, DurationUnit::Secs)
    };
    let mut digits: Vec<char> = Vec::new();
    let mut ok = cut > 0;
    let mut i: usize = 0;
    while i < cut
        invariant
            cut <= n,
            n == s@.len(),
            i <= cut,
            digits@ == s@.take(i as int),
            ok == (cut > 0 && all_digits(s@.take(i as int))),
        decreases cut - i,
    {
        let c = s[i];
        if !('0' <= c && c <= '9') {
            ok = false;
        }
        digits.push(c);
        i = i + 1;
        assert(digits@ =~= s@.take(i as int));
        assert(s@.take(i as int).drop_last() =~= s@.take(i - 1));
        assert(all_digits(s@.take(i as int)) == (all_digits(s@.take(i - 1)) && is_ascii_digit(c)))
            by {
            if all_digits(s@.take(i - 1)) && is_ascii_digit(c) {
                assert forall|j: int| 0 <= j < i implies is_ascii_digit(#[trigger] s@.take(i as int)[j]) by {
                    if j < i - 1 {
                        assert(s@.take(i as int)[j] == s@.take(i - 1)[j]);
                    }
                }
            }
            if all_digits(s@.take(i as int)) {
                assert(s@.take(i as int)[i - 1] == c);
                assert forall|j: int| 0 <= j < i - 1 implies is_ascii_digit(#[trigger] s@.take(i - 1)[j]) by {
                    assert(s@.take(i as int)[j] == s@.take(i - 1)[j]);
                }
            }
        }
    }
    assert(digits@ == duration_digits(s@));
    if !ok {
        let mut e = string_of("invalid duration '");
        push_str(&mut e, raw);
        push_str(&mut e, "'; use a whole number with optional ms, s, m, or h suffix");
        return Err(e);
    }
    let value = match parse_digits(&digits) {
        Some(v) => v,
        None => {
            let mut e = string_of("duration '");
            push_str(&mut e, raw);
            push_str(&mut e, "' is too large");
            return Err(e);
        },
    };
    let secs = match unit {
        DurationUnit::Millis => {
            return Ok(Duration::from_millis(value));
        },
        DurationUnit::Secs => Some(value),
        DurationUnit::Mins => value.checked_mul(60),
        DurationUnit::Hours => value.checked_mul(3600),
    };
    match secs {
        Some(t) => {
            let d = Duration::from_secs(t);
            assert(d@ == value * unit_secs(unit) * (NANOS_PER_SEC as nat));
            assert(value * unit_secs(unit) * (NANOS_PER_SEC as nat) == value * unit_nanos(unit))
                by (nonlinear_arith)
                requires
                    unit_nanos(unit) == unit_secs(unit) * (NANOS_PER_SEC as nat),
            ;
            Ok(d)
        },
        None => {
            let mut e = string_of("duration '");
            push_str(&mut e, raw);
            push_str(&mut e, "' is too large");
            Err(e)
        },
    }
}

/// The suffixes scale a number of seconds: a bare number or `s` is that many seconds,
/// `ms` a thousandth of it, `m` sixty times it and `h` 3600 times it; each form is
/// accepted exactly while its count (of seconds, for `m` and `h`) fits in `u64`.
pub proof fn lemma_duration_units(d: Seq<char>)
    requires
        d.len() > 0,
        all_digits(d),
    ensures
        duration_accepted(d) <==> digits_value(d) <= u64::MAX,
        duration_value(d) == digits_value(d) * 1_000_000_000,
        duration_accepted(d + "s"@) == duration_accepted(d),
        duration_value(d + "s"@) == duration_value(d),
        duration_accepted(d + "ms"@) == duration_accepted(d),
        duration_value(d + "ms"@) * 1000 == duration_value(d),
        duration_accepted(d + "m"@) <==> digits_value(d) * 60 <= u64::MAX,
        duration_value(d + "m"@) == 60 * duration_value(d),
        duration_accepted(d + "h"@) <==> digits_value(d) * 3600 <= u64::MAX,
        duration_value(d + "h"@) == 3600 * duration_value(d),
{
    reveal_strlit("s");
    reveal_strlit("ms");
    reveal_strlit("m");
    reveal_strlit("h");
    let n: int = d.len() as int;
    assert(is_ascii_digit(d[n - 1]));
    assert(is_ascii_digit(d[0]));
    let ds = d + "s"@;
    let dms = d + "ms"@;
    let dm = d + "m"@;
    let dh = d + "h"@;
    assert(ds[n] == 's' && ds[n - 1] == d[n - 1] && ds[0] == d[0]);
    assert(dms[n + 1] == 's' && dms[n] == 'm' && dms[0] == d[0]);
    assert(dm[n] == 'm' && dm[n - 1] == d[n - 1] && dm[0] == d[0]);
    assert(dh[n] == 'h' && dh[n - 1] == d[n - 1] && dh[0] == d[0]);
    assert(ds.take(n) =~= d);
    assert(dms.take(n) =~= d);
    assert(dm.take(n) =~= d);
    assert(dh.take(n) =~= d);
    assert(duration_digits(d) == d);
    assert(duration_unit(d) == DurationUnit::Secs);
    assert(duration_digits(ds) == d);
    assert(duration_unit(ds) == DurationUnit::Secs);
    assert(duration_digits(dms) == d);
    assert(duration_unit(dms) == DurationUnit::Millis);
    assert(duration_digits(dm) == d);
    assert(duration_unit(dm) == DurationUnit::Mins);
    assert(duration_digits(dh) == d);
    assert(duration_unit(dh) == DurationUnit::Hours);
    let v = digits_value(d);
    assert(v * 1_000_000 * 1000 == v * 1_000_000_000) by (nonlinear_arith);
    assert(v * (60 * 1_000_000_000) == 60 * (v * 1_000_000_000)) by (nonlinear_arith);
    assert(v * (3600 * 1_000_000_000) == 3600 * (v * 1_000_000_000)) by (nonlinear_arith);
    assert(v * 60 <= u64::MAX ==> v <= u64::MAX) by (nonlinear_arith);
    assert(v * 3600 <= u64::MAX ==> v <= u64::MAX) by (nonlinear_arith);
}

/// Text that is not a run of digits with at most one unit suffix is refused: a character
/// other than a digit, `m`, `s` or `h` anywhere (a sign, a decimal point, an upper-case
/// unit, a space) makes the whole text invalid.
pub proof fn lemma_duration_foreign_char(s: Seq<char>, i: int)
    requires
        0 <= i < s.len(),
        !is_ascii_digit(s[i]),
        s[i] != 'm',
        s[i] != 's',
        s[i] != 'h',
    ensures
        !duration_accepted(s),
{
    let n = s.len();
    let ds = duration_digits(s);
    if i < ds.len() {
        assert(ds[i] == s[i]);
    }
}

} // verus!
