//! Progress output: what each event prints, for each verbosity.

use vstd::prelude::*;

use crate::cli::{
    all_digits, digits_value, duration_accepted, duration_digits, duration_unit, duration_value,
    is_ascii_digit, DurationUnit,
};
use crate::duration::{Duration, NANOS_PER_MILLI, NANOS_PER_SEC};
use crate::text::{decimal, digit_char, push_decimal, push_str, string_of};

verus! {

/// How much the run prints.
#[derive(Clone, Copy, Debug, PartialEq, Eq, Structural)]
pub enum Verbosity {
    Quiet,
    Default,
    Verbose,
}

/// How a span of `n` nanoseconds is shown: `0`; whole milliseconds with `ms` where there
/// is a millisecond part or less than a second; else the largest of `h`, `m`, `s` that
/// divides it.
pub open spec fn duration_text(n: nat) -> Seq<char> {
    let secs = n / (NANOS_PER_SEC as nat);
    let sub_millis = (n % (NANOS_PER_SEC as nat)) / (NANOS_PER_MILLI as nat);
    if n == 0 {
        "0"@
    } else if sub_millis != 0 || secs == 0 {
        decimal(n / (NANOS_PER_MILLI as nat)) + "ms"@
    } else if secs % 3600 == 0 {
        decimal(secs / 3600) + "h"@
    } else if secs % 60 == 0 {
        decimal(secs / 60) + "m"@
    } else {
        decimal(secs) + "s"@
    }
}

/// Shows a duration the way the command line writes one.
pub fn format_duration(duration: Duration) -> (s: String)
    ensures
        s@ == duration_text(duration@),
{
    if duration.is_zero() {
        return string_of("0");
    }
    let mut s = String::new();
    if duration.subsec_millis() != 0 || duration.as_secs() == 0 {
        push_decimal(&mut s, duration.as_millis());
        push_str(&mut s, "ms");
        assert(s@ =~= decimal(duration@ / (NANOS_PER_MILLI as nat)) + "ms"@);
        return s;
    }
    let secs = duration.as_secs();
    if secs % 3600 == 0 {
        push_decimal(&mut s, (secs / 3600) as u128);
        push_str(&mut s, "h");
        assert(s@ =~= decimal(secs as nat / 3600) + "h"@);
    } else if secs % 60 == 0 {
        push_decimal(&mut s, (secs / 60) as u128);
        push_str(&mut s, "m");
        assert(s@ =~= decimal(secs as nat / 60) + "m"@);
    } else {
        push_decimal(&mut s, secs as u128);
        push_str(&mut s, "s");
        assert(s@ =~= decimal(secs as nat) + "s"@);
    }
    s
}

proof fn lemma_digit_char(d: nat)
    requires
        d < 10,
    ensures
        is_ascii_digit(digit_char(d)),
        (digit_char(d) as nat) - ('0' as nat) == d,
{
}

/// A decimal numeral is a non-empty string of digits that denotes its number.
proof fn lemma_decimal_reads_back(n: nat)
    ensures
        decimal(n).len() > 0,
        all_digits(decimal(n)),
        digits_value(decimal(n)) == n,
    decreases n,
{
    lemma_digit_char(n % 10);
    if n < 10 {
        assert(decimal(n).drop_last() =~= Seq::<char>::empty());
        assert(digits_value(Seq::<char>::empty()) == 0);
        assert(decimal(n).last() == digit_char(n));
    } else {
        lemma_decimal_reads_back(n / 10);
        let s = decimal(n / 10);
        assert(decimal(n).drop_last() =~= s);
        assert(decimal(n).last() == digit_char(n % 10));
        assert(digits_value(decimal(n)) == digits_value(s) * 10 + ((digit_char(n % 10) as nat) - ('0' as nat)));
        assert forall|i: int| 0 <= i < decimal(n).len() implies is_ascii_digit(#[trigger] decimal(n)[i]) by {
            if i < s.len() {
                assert(decimal(n)[i] == s[i]);
            }
        }
    }
}

/// A numeral followed by a one-letter unit reads back as that numeral and unit.
proof fn lemma_numeral_with_suffix(d: Seq<char>, suffix: Seq<char>)
    requires
        d.len() > 0,
        all_digits(d),
        1 <= suffix.len() <= 2,
        suffix.len() == 2 ==> suffix == seq!['m', 's'],
        suffix.len() == 1 ==> suffix[0] == 's' || suffix[0] == 'm' || suffix[0] == 'h',
    ensures
        duration_digits(d + suffix) == d,
        duration_unit(d + suffix) == (if suffix.len() == 2 {
            DurationUnit::Millis
        } else if suffix[0] == 's' {
            DurationUnit::Secs
        } else if suffix[0] == 'm' {
            DurationUnit::Mins
        } else {
            DurationUnit::Hours
        }),
        (d + suffix)[0] != '-',
{
    let s = d + suffix;
    assert(is_ascii_digit(d[d.len() - 1]));
    assert(is_ascii_digit(d[0]));
    assert(s[0] == d[0]);
    if suffix.len() == 2 {
        assert(s.take(s.len() - 2) =~= d);
    } else {
        assert(s[s.len() - 2] == d[d.len() - 1]);
        assert(s.take(s.len() - 1) =~= d);
    }
}

/// The way a duration is shown is a way to write it: a shown duration of whole
/// milliseconds (at most `u64::MAX` of them) reads back as the same duration.
pub proof fn lemma_duration_text_reads_back(n: nat)
    requires
        n % (NANOS_PER_MILLI as nat) == 0,
        n / (NANOS_PER_MILLI as nat) <= u64::MAX,
    ensures
        duration_accepted(duration_text(n)),
        duration_value(duration_text(n)) == n,
{
    let secs = n / (NANOS_PER_SEC as nat);
    let sub_millis = (n % (NANOS_PER_SEC as nat)) / (NANOS_PER_MILLI as nat);
    let t = duration_text(n);
    if n == 0 {
        reveal_strlit("0");
        assert(t == seq!['0']);
        assert(t.drop_last() =~= Seq::<char>::empty());
        assert(duration_digits(t) == t);
        assert(all_digits(t));
        assert(digits_value(Seq::<char>::empty()) == 0);
        assert(digits_value(t) == 0);
        assert(duration_accepted(t));
    } else if sub_millis != 0 || secs == 0 {
        reveal_strlit("ms");
        let m = n / (NANOS_PER_MILLI as nat);
        lemma_decimal_reads_back(m);
        assert("ms"@ =~= seq!['m', 's']);
        lemma_numeral_with_suffix(decimal(m), "ms"@);
        assert(m * 1_000_000 == n) by (nonlinear_arith)
            requires
                m == n / 1_000_000,
                n % 1_000_000 == 0,
        ;
    } else {
        assert(n % 1_000_000_000 == 0 && secs * 1_000_000_000 == n && secs <= u64::MAX)
            by (nonlinear_arith)
            requires
                n % 1_000_000 == 0,
                (n % 1_000_000_000) / 1_000_000 == 0,
                secs == n / 1_000_000_000,
                n / 1_000_000 <= u64::MAX,
        ;
        if secs % 3600 == 0 {
            reveal_strlit("h");
            let v = secs / 3600;
            lemma_decimal_reads_back(v);
            lemma_numeral_with_suffix(decimal(v), "h"@);
            assert(v * 3600 == secs) by (nonlinear_arith)
                requires
                    v == secs / 3600,
                    secs % 3600 == 0,
            ;
            assert(v * (3600 * 1_000_000_000) == n) by (nonlinear_arith)
                requires
                    v * 3600 == secs,
                    secs * 1_000_000_000 == n,
            ;
        } else if secs % 60 == 0 {
            reveal_strlit("m");
            let v = secs / 60;
            lemma_decimal_reads_back(v);
            lemma_numeral_with_suffix(decimal(v), "m"@);
            assert(v * 60 == secs) by (nonlinear_arith)
                requires
                    v == secs / 60,
                    secs % 60 == 0,
            ;
            assert(v * (60 * 1_000_000_000) == n) by (nonlinear_arith)
                requires
                    v * 60 == secs,
                    secs * 1_000_000_000 == n,
            ;
        } else {
            reveal_strlit("s");
            lemma_decimal_reads_back(secs);
            lemma_numeral_with_suffix(decimal(secs), "s"@);
        }
    }
}

/// What the progress output says of a run.
pub struct OutputConfig {
    pub verbosity: Verbosity,
    /// The target as the user named it.
    pub target: String,
    /// The address the target resolved to, as text.
    pub resolved: String,
    /// The probe backend's name, e.g. `icmp`.
    pub probe: String,
    pub interval: Duration,
    pub stable: u32,
    pub max_tries: Option<u32>,
    pub timeout: Option<Duration>,
    pub down: bool,
}

/// Waiting dots wrap after this many.
pub const DOTS_PER_LINE: u8 = 50;

/// A line break where a dot line is open.
pub open spec fn dot_line_end(dots: nat) -> Seq<char> {
    if dots == 0 {
        Seq::empty()
    } else {
        "\n"@
    }
}

pub open spec fn limit_text(n: Option<u32>) -> Seq<char> {
    match n {
        Some(n) => decimal(n as nat),
        None => "none"@,
    }
}

pub open spec fn timeout_text(t: Option<Duration>) -> Seq<char> {
    match t {
        Some(t) => duration_text(t@),
        None => "none"@,
    }
}

/// The startup line.
pub open spec fn startup_text(c: OutputConfig) -> Seq<char> {
    match c.verbosity {
        Verbosity::Quiet => Seq::empty(),
        Verbosity::Default => c.target@ + ": waiting for "@ + decimal(c.stable as nat) + " stable "@
            + (if c.down { "misses"@ } else { c.probe@ + " replies"@ }) + " every "@
            + duration_text(c.interval@) + "\n"@,
        Verbosity::Verbose => "bide: probe="@ + c.probe@ + " target="@ + c.target@ + " addr="@
            + c.resolved@ + " interval="@ + duration_text(c.interval@) + " stable="@
            + decimal(c.stable as nat) + " max-tries="@ + limit_text(c.max_tries) + " timeout="@
            + timeout_text(c.timeout) + " mode="@ + (if c.down { "down"@ } else { "up"@ }) + "\n"@,
    }
}

/// The line for a matching probe that leaves the streak at `streak`; `final_ok` marks the
/// one that completes it.
pub open spec fn streak_text(c: OutputConfig, dots: nat, streak: nat, rtt: Seq<char>, seq: nat, final_ok: bool) -> Seq<char> {
    let ok = if final_ok { " ok"@ } else { Seq::empty() };
    match c.verbosity {
        Verbosity::Quiet => Seq::empty(),
        Verbosity::Default => dot_line_end(dots) + c.target@ + ": "@ + decimal(streak) + "/"@
            + decimal(c.stable as nat) + ok + "\n"@,
        Verbosity::Verbose => c.target@ + ": "@ + decimal(streak) + "/"@ + decimal(c.stable as nat)
            + ok + " seq="@ + decimal(seq) + " rtt="@ + rtt + "\n"@,
    }
}

/// The output for a probe that resets the streak: a waiting dot, or a line when verbose.
pub open spec fn reset_text(c: OutputConfig, dots: nat, seq: nat, rtt: Seq<char>) -> Seq<char> {
    match c.verbosity {
        Verbosity::Quiet => Seq::empty(),
        Verbosity::Default => (if dots == 0 { c.target@ + ": waiting "@ } else { Seq::empty() }) + "."@
            + (if dots + 1 >= DOTS_PER_LINE { "\n"@ } else { Seq::empty() }),
        Verbosity::Verbose => c.target@ + ": "@ + (if c.down { "responded"@ } else { "no response"@ })
            + " seq="@ + decimal(seq) + " rtt="@ + rtt + " - streak reset"@ + "\n"@,
    }
}

/// The dots on the open line after a reset.
pub open spec fn dots_after_reset(c: OutputConfig, dots: nat) -> nat {
    match c.verbosity {
        Verbosity::Default => if dots + 1 >= DOTS_PER_LINE { 0 } else { dots + 1 },
        _ => dots,
    }
}

/// A terminal line, after any open dot line is finished.
pub open spec fn terminal_text(c: OutputConfig, dots: nat, message: Seq<char>) -> Seq<char> {
    match c.verbosity {
        Verbosity::Quiet => Seq::empty(),
        _ => dot_line_end(dots) + c.target@ + message + "\n"@,
    }
}

pub open spec fn deadline_message(elapsed: nat) -> Seq<char> {
    ": deadline reached after "@ + duration_text(elapsed)
}

pub open spec fn max_tries_message(attempts: nat) -> Seq<char> {
    ": max tries reached after "@ + decimal(attempts) + " attempts"@
}

/// Waiting dots wrap: a reset in default mode writes the waiting prefix on a fresh line,
/// then a dot, and a line break at the fiftieth dot; the count goes up by one modulo fifty.
pub proof fn lemma_dot_lines_wrap(c: OutputConfig, dots: nat, seq: nat, rtt: Seq<char>)
    requires
        c.verbosity == Verbosity::Default,
        dots < DOTS_PER_LINE,
    ensures
        reset_text(c, dots, seq, rtt) == (if dots == 0 { c.target@ + ": waiting "@ } else {
            Seq::empty()
        }) + "."@ + (if dots + 1 == DOTS_PER_LINE { "\n"@ } else { Seq::empty() }),
        dots_after_reset(c, dots) == (dots + 1) % (DOTS_PER_LINE as nat),
        dots_after_reset(c, dots) < DOTS_PER_LINE,
        dots + 1 == DOTS_PER_LINE ==> dots_after_reset(c, dots) == 0 && reset_text(c, dots, seq, rtt)
            == "."@ + "\n"@,
        dots + 1 < DOTS_PER_LINE ==> dots_after_reset(c, dots) == dots + 1,
{
    if dots + 1 == DOTS_PER_LINE {
        assert(Seq::<char>::empty() + "."@ =~= "."@);
    }
}

/// Progress and terminal lines start on a fresh line: an open dot line is finished first.
pub proof fn lemma_lines_follow_dots(c: OutputConfig, dots: nat, streak: nat, rtt: Seq<char>, seq: nat, final_ok: bool, message: Seq<char>)
    requires
        c.verbosity == Verbosity::Default,
        dots > 0,
    ensures
        streak_text(c, dots, streak, rtt, seq, final_ok).take(1) == "\n"@.take(1),
        terminal_text(c, dots, message).take(1) == "\n"@.take(1),
{
    reveal_strlit("\n");
    let a = streak_text(c, dots, streak, rtt, seq, final_ok);
    let b = terminal_text(c, dots, message);
    assert(a[0] == '\n');
    assert(b[0] == '\n');
    assert(a.take(1) =~= "\n"@.take(1));
    assert(b.take(1) =~= "\n"@.take(1));
}

/// Writes the progress of a run; each method returns the text to write.
pub struct OutputReporter {
    config: OutputConfig,
    dots: u8,
}

impl OutputReporter {
    #[verifier::type_invariant]
    spec fn wf(self) -> bool {
        &&& self.dots < DOTS_PER_LINE
        &&& self.dots > 0 ==> self.config.verbosity == Verbosity::Default
    }

    pub closed spec fn spec_config(&self) -> OutputConfig {
        self.config
    }

    /// The dots on the open waiting line.
    pub closed spec fn spec_dots(&self) -> nat {
        self.dots as nat
    }

    pub fn new(config: OutputConfig) -> (r: OutputReporter)
        ensures
            r.spec_config() == config,
            r.spec_dots() == 0,
    {
        OutputReporter { config, dots: 0 }
    }

    pub fn config(&self) -> (c: &OutputConfig)
        ensures
            *c == self.spec_config(),
    {
        &self.config
    }

    /// The dots on the open waiting line.
    pub fn dots(&self) -> (d: u8)
        ensures
            d == self.spec_dots(),
            d < DOTS_PER_LINE,
            d > 0 ==> self.spec_config().verbosity == Verbosity::Default,
    {
        proof {
            use_type_invariant(self);
        }
        self.dots
    }

    pub fn print_startup(&self) -> (text: String)
        ensures
            text@ == startup_text(self.spec_config()),
    {
        let c = &self.config;
        match c.verbosity {
            Verbosity::Quiet => String::new(),
            Verbosity::Default => {
                let mut t = string_of(c.target.as_str());
                push_str(&mut t, ": waiting for ");
                push_decimal(&mut t, c.stable as u128);
                push_str(&mut t, " stable ");
                let ghost before = t@;
                if c.down {
                    push_str(&mut t, "misses");
                } else {
                    push_str(&mut t, c.probe.as_str());
                    push_str(&mut t, " replies");
                    assert(t@ =~= before + (c.probe@ + " replies"@));
                }
                push_str(&mut t, " every ");
                let d = format_duration(c.interval);
                push_str(&mut t, d.as_str());
                push_str(&mut t, "\n");
                t
            },
            Verbosity::Verbose => {
                let mut t = string_of("bide: probe=");
                push_str(&mut t, c.probe.as_str());
                push_str(&mut t, " target=");
                push_str(&mut t, c.target.as_str());
                push_str(&mut t, " addr=");
                push_str(&mut t, c.resolved.as_str());
                push_str(&mut t, " interval=");
                let d = format_duration(c.interval);
                push_str(&mut t, d.as_str());
                push_str(&mut t, " stable=");
                push_decimal(&mut t, c.stable as u128);
                push_str(&mut t, " max-tries=");
                match c.max_tries {
                    Some(n) => push_decimal(&mut t, n as u128),
                    None => push_str(&mut t, "none"),
                }
                push_str(&mut t, " timeout=");
                match c.timeout {
                    Some(d) => {
                        let x = format_duration(d);
                        push_str(&mut t, x.as_str());
                    },
                    None => push_str(&mut t, "none"),
                }
                push_str(&mut t, " mode=");
                if c.down {
                    push_str(&mut t, "down");
                } else {
                    push_str(&mut t, "up");
                }
                push_str(&mut t, "\n");
                t
            },
        }
    }

    /// Finishes an open dot line: a line break where there are dots.
    pub fn finish_dot_line(&mut self) -> (text: String)
        ensures
            text@ == dot_line_end(old(self).spec_dots()),
            final(self).spec_dots() == 0,
            final(self).spec_config() == old(self).spec_config(),
    {
        if self.dots == 0 {
            return String::new();
        }
        self.dots = 0;
        string_of("\n")
    }

    fn print_streak(&mut self, streak: u32, rtt: &str, seq: u16, final_ok: bool) -> (text: String)
        ensures
            text@ == streak_text(old(self).spec_config(), old(self).spec_dots(), streak as nat, rtt@, seq as nat, final_ok),
            final(self).spec_config() == old(self).spec_config(),
            final(self).spec_dots() == if old(self).spec_config().verbosity == Verbosity::Default {
                0
            } else {
                old(self).spec_dots()
            },
    {
        let ghost ok: Seq<char> = if final_ok { " ok"@ } else { Seq::empty() };
        match self.config.verbosity {
            Verbosity::Quiet => String::new(),
            Verbosity::Default => {
                let mut t = self.finish_dot_line();
                push_str(&mut t, self.config.target.as_str());
                push_str(&mut t, ": ");
                push_decimal(&mut t, streak as u128);
                push_str(&mut t, "/");
                push_decimal(&mut t, self.config.stable as u128);
                if final_ok {
                    push_str(&mut t, " ok");
                } else {
                    assert(t@ + ok =~= t@);
                }
                push_str(&mut t, "\n");
                t
            },
            Verbosity::Verbose => {
                let mut t = string_of(self.config.target.as_str());
                push_str(&mut t, ": ");
                push_decimal(&mut t, streak as u128);
                push_str(&mut t, "/");
                push_decimal(&mut t, self.config.stable as u128);
                if final_ok {
                    push_str(&mut t, " ok");
                } else {
                    assert(t@ + ok =~= t@);
                }
                push_str(&mut t, " seq=");
                push_decimal(&mut t, seq as u128);
                push_str(&mut t, " rtt=");
                push_str(&mut t, rtt);
                push_str(&mut t, "\n");
                t
            },
        }
    }

    /// The output for a matching probe that leaves the streak at `streak`, short of the goal.
    pub fn print_progress(&mut self, streak: u32, rtt: &str, seq: u16) -> (text: String)
        ensures
            text@ == streak_text(old(self).spec_config(), old(self).spec_dots(), streak as nat, rtt@, seq as nat, false),
            final(self).spec_config() == old(self).spec_config(),
            final(self).spec_dots() == 0,
    {
        proof {
            use_type_invariant(&*self);
        }
        self.print_streak(streak, rtt, seq, false)
    }

    /// The output for the matching probe that completes the streak.
    pub fn print_final_ok(&mut self, streak: u32, rtt: &str, seq: u16) -> (text: String)
        ensures
            text@ == streak_text(old(self).spec_config(), old(self).spec_dots(), streak as nat, rtt@, seq as nat, true),
            final(self).spec_config() == old(self).spec_config(),
            final(self).spec_dots() == 0,
    {
        proof {
            use_type_invariant(&*self);
        }
        self.print_streak(streak, rtt, seq, true)
    }

    /// The output for a probe that resets the streak.
    pub fn print_reset(&mut self, seq: u16, rtt: &str) -> (text: String)
        ensures
            text@ == reset_text(old(self).spec_config(), old(self).spec_dots(), seq as nat, rtt@),
            final(self).spec_config() == old(self).spec_config(),
            final(self).spec_dots() == dots_after_reset(old(self).spec_config(), old(self).spec_dots()),
    {
        proof {
            use_type_invariant(&*self);
        }
        match self.config.verbosity {
            Verbosity::Quiet => String::new(),
            Verbosity::Default => self.print_dot(),
            Verbosity::Verbose => {
                let mut t = string_of(self.config.target.as_str());
                push_str(&mut t, ": ");
                if self.config.down {
                    push_str(&mut t, "responded");
                } else {
                    push_str(&mut t, "no response");
                }
                push_str(&mut t, " seq=");
                push_decimal(&mut t, seq as u128);
                push_str(&mut t, " rtt=");
                push_str(&mut t, rtt);
                push_str(&mut t, " - streak reset");
                push_str(&mut t, "\n");
                t
            },
        }
    }

    fn print_dot(&mut self) -> (text: String)
        requires
            old(self).spec_config().verbosity == Verbosity::Default,
        ensures
            text@ == reset_text(old(self).spec_config(), old(self).spec_dots(), 0, Seq::empty()),
            final(self).spec_config() == old(self).spec_config(),
            final(self).spec_dots() == dots_after_reset(old(self).spec_config(), old(self).spec_dots()),
    {
        proof {
            use_type_invariant(&*self);
        }
        let mut t = String::new();
        if self.dots == 0 {
            push_str(&mut t, self.config.target.as_str());
            push_str(&mut t, ": waiting ");
        }
        push_str(&mut t, ".");
        let next = self.dots + 1;
        if next >= DOTS_PER_LINE {
            push_str(&mut t, "\n");
            self.dots = 0;
        } else {
            self.dots = next;
        }
        let ghost c = old(self).spec_config();
        let ghost d = old(self).spec_dots();
        assert(t@ =~= (if d == 0 { c.target@ + ": waiting "@ } else { Seq::empty() }) + "."@
            + (if d + 1 >= DOTS_PER_LINE { "\n"@ } else { Seq::empty() }));
        t
    }

    fn print_terminal(&mut self, message: &str) -> (text: String)
        ensures
            text@ == terminal_text(old(self).spec_config(), old(self).spec_dots(), message@),
            final(self).spec_config() == old(self).spec_config(),
            final(self).spec_dots() == 0,
    {
        proof {
            use_type_invariant(&*self);
        }
        if self.config.verbosity == Verbosity::Quiet {
            return String::new();
        }
        let mut t = self.finish_dot_line();
        push_str(&mut t, self.config.target.as_str());
        push_str(&mut t, message);
        push_str(&mut t, "\n");
        t
    }

    /// The output when the overall deadline has passed, `elapsed` after the start.
    pub fn print_deadline(&mut self, elapsed: Duration) -> (text: String)
        ensures
            text@ == terminal_text(old(self).spec_config(), old(self).spec_dots(), deadline_message(elapsed@)),
            final(self).spec_config() == old(self).spec_config(),
            final(self).spec_dots() == 0,
    {
        let mut m = string_of(": deadline reached after ");
        let d = format_duration(elapsed);
        push_str(&mut m, d.as_str());
        self.print_terminal(m.as_str())
    }

    /// The output when the attempts are used up after `attempts` probes.
    pub fn print_max_tries(&mut self, attempts: u32) -> (text: String)
        ensures
            text@ == terminal_text(old(self).spec_config(), old(self).spec_dots(), max_tries_message(attempts as nat)),
            final(self).spec_config() == old(self).spec_config(),
            final(self).spec_dots() == 0,
    {
        let mut m = string_of(": max tries reached after ");
        push_decimal(&mut m, attempts as u128);
        push_str(&mut m, " attempts");
        self.print_terminal(m.as_str())
    }
}

} // verus!
