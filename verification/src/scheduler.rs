//! The scheduler's decisions: one probe per interval tick, a streak of matching probes,
//! the overall deadline and the attempt budget. The program that drives a run performs
//! each command the run state gives (read the clock, check for signals, sleep, probe,
//! finish) and hands back what happened.

use vstd::prelude::*;

use crate::duration::{max_nanos, Duration};
use crate::output::{
    dot_line_end, dots_after_reset, deadline_message, max_tries_message, reset_text,
    startup_text, streak_text, terminal_text, OutputConfig, OutputReporter, Verbosity,
    DOTS_PER_LINE,
};
use crate::probe::{ProbeError, ProbeOutcome};
use crate::text::{push_str, string_of};

verus! {

/// How a run ends.
#[derive(Debug)]
pub enum RunResult {
    Success,
    Deadline,
    MaxTriesReached,
    Interrupted,
    Terminated,
    InvalidConfig(String),
    ProbeError(ProbeError),
}

/// How a run ends, with messages as text.
pub enum ResultView {
    Success,
    Deadline,
    MaxTriesReached,
    Interrupted,
    Terminated,
    InvalidConfig(Seq<char>),
    ProbeError(Seq<char>),
}

impl View for RunResult {
    type V = ResultView;

    open spec fn view(&self) -> ResultView {
        match self {
            RunResult::Success => ResultView::Success,
            RunResult::Deadline => ResultView::Deadline,
            RunResult::MaxTriesReached => ResultView::MaxTriesReached,
            RunResult::Interrupted => ResultView::Interrupted,
            RunResult::Terminated => ResultView::Terminated,
            RunResult::InvalidConfig(m) => ResultView::InvalidConfig(m@),
            RunResult::ProbeError(e) => ResultView::ProbeError(e.message@),
        }
    }
}

/// The process exit status for each way a run ends.
pub open spec fn exit_status(r: ResultView) -> u8 {
    match r {
        ResultView::Success => 0,
        ResultView::Deadline => 1,
        ResultView::MaxTriesReached => 1,
        ResultView::InvalidConfig(_) => 2,
        ResultView::ProbeError(_) => 3,
        ResultView::Interrupted => 130,
        ResultView::Terminated => 143,
    }
}

impl RunResult {
    /// The process exit status: 0 when the streak was achieved, 1 when the deadline or the
    /// attempt budget ran out first, 2 for an invalid configuration, 3 for a fatal probe
    /// error, 130 after SIGINT and 143 after SIGTERM.
    pub fn exit_code(&self) -> (c: u8)
        ensures
            c == exit_status(self@),
    {
        match self {
            RunResult::Success => 0,
            RunResult::Deadline => 1,
            RunResult::MaxTriesReached => 1,
            RunResult::Interrupted => 130,
            RunResult::Terminated => 143,
            RunResult::InvalidConfig(_) => 2,
            RunResult::ProbeError(_) => 3,
        }
    }
}

/// Which termination signals have arrived.
#[derive(Clone, Copy, Debug, PartialEq, Eq, Structural)]
pub struct Signals {
    pub interrupted: bool,
    pub terminated: bool,
}

/// The result a signal calls for: SIGINT before SIGTERM; none without a signal.
pub open spec fn signal_result(interrupted: bool, terminated: bool) -> Option<ResultView> {
    if interrupted {
        Some(ResultView::Interrupted)
    } else if terminated {
        Some(ResultView::Terminated)
    } else {
        None
    }
}

/// The result that the signals call for, if any.
pub fn check_signals(signals: Signals) -> (r: Option<RunResult>)
    ensures
        match (r, signal_result(signals.interrupted, signals.terminated)) {
            (Some(x), Some(y)) => x@ == y,
            (None, None) => true,
            _ => false,
        },
{
    if signals.interrupted {
        return Some(RunResult::Interrupted);
    }
    if signals.terminated {
        return Some(RunResult::Terminated);
    }
    None
}

/// The settings of a run.
pub struct Scheduler {
    pub interval: Duration,
    pub stable: u32,
    pub max_tries: Option<u32>,
    pub timeout: Option<Duration>,
    /// If true, a no-response builds the streak and a reply resets it.
    pub down: bool,
    pub verbosity: Verbosity,
    pub target_label: String,
}

/// What the driver of a run does next.
pub enum Command {
    /// Read the time elapsed since the program started; answer with `Event::Clock`.
    ReadClock,
    /// Look at the signal flags; answer with `Event::Signals`.
    CheckSignals,
    /// Sleep this long, waking early on a signal; answer with `Event::Signals`.
    Sleep(Duration),
    /// Send one probe with this sequence number and wait for its reply until this time
    /// (since the start); answer with `Event::Probed`.
    Probe { seq: u16, deadline: Duration },
    /// The run is over.
    Finish(RunResult),
}

pub enum CommandView {
    ReadClock,
    CheckSignals,
    Sleep(nat),
    Probe { seq: nat, deadline: nat },
    Finish(ResultView),
}

impl View for Command {
    type V = CommandView;

    open spec fn view(&self) -> CommandView {
        match self {
            Command::ReadClock => CommandView::ReadClock,
            Command::CheckSignals => CommandView::CheckSignals,
            Command::Sleep(d) => CommandView::Sleep(d@),
            Command::Probe { seq, deadline } => CommandView::Probe { seq: *seq as nat, deadline: deadline@ },
            Command::Finish(r) => CommandView::Finish(r@),
        }
    }
}

/// What happened, in answer to a command.
pub enum Event {
    /// The time elapsed since the program started.
    Clock(Duration),
    /// The signal flags.
    Signals(Signals),
    /// What the probe reported, with its round-trip time as text (for verbose lines).
    Probed { outcome: Result<ProbeOutcome, ProbeError>, rtt: String },
}

pub enum EventView {
    Clock(nat),
    Signals { interrupted: bool, terminated: bool },
    ProbeFailed(Seq<char>),
    /// `reply` is the sequence number of the reply, if one came.
    Probed { reply: Option<nat>, rtt: Seq<char> },
}

impl View for Event {
    type V = EventView;

    open spec fn view(&self) -> EventView {
        match self {
            Event::Clock(d) => EventView::Clock(d@),
            Event::Signals(s) => EventView::Signals { interrupted: s.interrupted, terminated: s.terminated },
            Event::Probed { outcome, rtt } => match outcome {
                Err(e) => EventView::ProbeFailed(e.message@),
                Ok(ProbeOutcome::Success { seq, .. }) => EventView::Probed { reply: Some(*seq as nat), rtt: rtt@ },
                Ok(ProbeOutcome::NoResponse) => EventView::Probed { reply: None, rtt: rtt@ },
            },
        }
    }
}

/// Text to write, and the next command.
pub struct Step {
    pub output: String,
    pub command: Command,
}

/// Where a run stands, by the event it waits for.
#[derive(Clone, Copy, Debug, PartialEq, Eq, Structural)]
pub enum Phase {
    /// Waits for the clock: the first tick starts now.
    Starting,
    /// Waits for the signals at the top of a round.
    Top,
    /// Waits for the clock to skip ticks that already passed.
    CatchUp,
    /// Waits for the signals after sleeping until the tick.
    Slept,
    /// Waits for the clock to check the deadline before probing.
    DeadlineCheck,
    /// Waits for the probe's outcome.
    Probing,
    /// Waits for the signals after the probe.
    AfterProbe,
    /// Waits for the clock to check the deadline before a reset.
    ResetDeadlineCheck,
    /// The run is over.
    Done,
}

/// A run's state, with times in nanoseconds since the program started.
pub struct RunView {
    pub cfg: Scheduler,
    pub out: OutputConfig,
    pub phase: Phase,
    /// Dots on the open waiting line.
    pub dots: nat,
    pub deadline: Option<nat>,
    pub streak: nat,
    pub attempts: nat,
    pub tick: nat,
    pub tick_start: nat,
    pub next_tick: nat,
    /// Whether the last probe builds the streak.
    pub pending_builds: bool,
    /// The sequence number reported for the last probe.
    pub pending_seq: nat,
    pub pending_rtt: Seq<char>,
    /// For each completed probe, whether it built the streak.
    pub history: Seq<bool>,
    /// The tick start and tick number of the last probe sent, if any.
    pub last_probe: Option<(nat, nat)>,
}

/// What a step leaves: the state, the command, and the text to write.
pub struct Next {
    pub state: RunView,
    pub command: CommandView,
    pub output: Seq<char>,
}

pub open spec fn sat_u32(x: nat) -> nat {
    if x > u32::MAX { u32::MAX as nat } else { x }
}

pub open spec fn timeout_nanos(t: Option<Duration>) -> Option<nat> {
    match t {
        Some(d) => Some(d@),
        None => None,
    }
}

/// How many probes at the end of `h` in a row built the streak.
pub open spec fn trailing_run(h: Seq<bool>) -> nat
    decreases h.len(),
{
    if h.len() == 0 || !h.last() {
        0
    } else {
        trailing_run(h.drop_last()) + 1
    }
}

/// The probe waits until the next tick, or the overall deadline where that comes first.
pub open spec fn probe_deadline(deadline: Option<nat>, next_tick: nat) -> nat {
    match deadline {
        Some(d) => if d < next_tick { d } else { next_tick },
        None => next_tick,
    }
}

/// The run ends with `r`.
pub open spec fn finished(s: RunView, r: ResultView, output: Seq<char>) -> Next {
    Next { state: RunView { phase: Phase::Done, ..s }, command: CommandView::Finish(r), output }
}

/// A signal ends the run, after any open dot line is finished.
pub open spec fn stopped(s: RunView, r: ResultView) -> Next {
    finished(RunView { dots: 0, ..s }, r, dot_line_end(s.dots))
}

/// The overall deadline has passed at `now`.
pub open spec fn deadline_reached(s: RunView, now: nat) -> Next {
    finished(
        RunView { dots: 0, ..s },
        ResultView::Deadline,
        terminal_text(s.out, s.dots, deadline_message(now)),
    )
}

/// Sends the probe of the current tick, bounded by the next tick and the deadline.
pub open spec fn issue_probe(s: RunView) -> Next {
    let nt = s.tick_start + s.cfg.interval@;
    if nt > max_nanos() {
        finished(s, ResultView::InvalidConfig("--interval is too large"@), Seq::empty())
    } else {
        Next {
            state: RunView {
                phase: Phase::Probing,
                next_tick: nt,
                pending_seq: s.tick % 0x10000,
                last_probe: Some((s.tick_start, s.tick)),
                ..s
            },
            command: CommandView::Probe { seq: s.tick % 0x10000, deadline: probe_deadline(s.deadline, nt) },
            output: Seq::empty(),
        }
    }
}

/// Probes now, after checking the deadline where there is one.
pub open spec fn probe_or_check_deadline(s: RunView) -> Next {
    if s.deadline is Some {
        Next { state: RunView { phase: Phase::DeadlineCheck, ..s }, command: CommandView::ReadClock, output: Seq::empty() }
    } else {
        issue_probe(s)
    }
}

/// How long to sleep at `now` until the tick starts, or until the deadline where that
/// comes first.
pub open spec fn sleep_length(s: RunView, now: nat) -> nat {
    match s.deadline {
        Some(d) => if d < s.tick_start {
            if d >= now { (d - now) as nat } else { 0 }
        } else {
            (s.tick_start - now) as nat
        },
        None => (s.tick_start - now) as nat,
    }
}

/// At `now`: sleeps until the tick where it lies ahead, else skips the ticks that passed.
pub open spec fn catch_up(s: RunView, now: nat) -> Next {
    if now < s.tick_start {
        Next { state: RunView { phase: Phase::Slept, ..s }, command: CommandView::Sleep(sleep_length(s, now)), output: Seq::empty() }
    } else {
        let k = ((now - s.tick_start) as nat) / s.cfg.interval@;
        probe_or_check_deadline(
            RunView { tick_start: s.tick_start + k * s.cfg.interval@, tick: sat_u32(s.tick + k), ..s },
        )
    }
}

/// After a probe is handled: stops when the attempts are used up, else goes to the next tick.
pub open spec fn after_outcome(s: RunView, output: Seq<char>) -> Next {
    match s.cfg.max_tries {
        Some(m) if s.attempts >= m => finished(
            RunView { dots: 0, ..s },
            ResultView::MaxTriesReached,
            output + terminal_text(s.out, s.dots, max_tries_message(s.attempts)),
        ),
        _ => Next {
            state: RunView { phase: Phase::Top, tick_start: s.next_tick, tick: sat_u32(s.tick + 1), ..s },
            command: CommandView::CheckSignals,
            output,
        },
    }
}

/// A mismatching probe resets the streak to zero.
pub open spec fn reset(s: RunView) -> Next {
    after_outcome(
        RunView { streak: 0, dots: dots_after_reset(s.out, s.dots), ..s },
        reset_text(s.out, s.dots, s.pending_seq, s.pending_rtt),
    )
}

/// The probe counts as an attempt.
pub open spec fn counted(s: RunView) -> RunView {
    RunView { attempts: sat_u32(s.attempts + 1), history: s.history.push(s.pending_builds), ..s }
}

/// Handles the probe's outcome: a matching probe extends the streak (ending the run when
/// it reaches the goal); a mismatching one resets it unless the deadline has passed.
pub open spec fn handle_outcome(s: RunView) -> Next {
    let c = counted(s);
    if s.pending_builds {
        let k = s.streak + 1;
        if k >= s.cfg.stable {
            finished(
                RunView { streak: k, dots: 0, ..c },
                ResultView::Success,
                streak_text(s.out, s.dots, k, s.pending_rtt, s.pending_seq, true),
            )
        } else {
            after_outcome(
                RunView { streak: k, dots: 0, ..c },
                streak_text(s.out, s.dots, k, s.pending_rtt, s.pending_seq, false),
            )
        }
    } else if s.deadline is Some {
        Next { state: RunView { phase: Phase::ResetDeadlineCheck, ..c }, command: CommandView::ReadClock, output: Seq::empty() }
    } else {
        reset(c)
    }
}

/// The event that a phase waits for.
pub open spec fn expects(s: RunView, e: EventView) -> bool {
    match s.phase {
        Phase::Starting | Phase::CatchUp | Phase::DeadlineCheck | Phase::ResetDeadlineCheck =>
            e matches EventView::Clock(now) && now <= max_nanos(),
        Phase::Top | Phase::Slept | Phase::AfterProbe => e is Signals,
        Phase::Probing => e is ProbeFailed || (e matches EventView::Probed { reply, .. } && (
        reply matches Some(q) ==> q < 0x10000)),
        Phase::Done => false,
    }
}

/// One step of a run: the state after `e`, the next command, and the text to write.
pub open spec fn transition(s: RunView, e: EventView) -> Next {
    match (s.phase, e) {
        (Phase::Starting, EventView::Clock(now)) => Next {
            state: RunView { phase: Phase::Top, tick_start: now, ..s },
            command: CommandView::CheckSignals,
            output: Seq::empty(),
        },
        (Phase::Top, EventView::Signals { interrupted, terminated }) => match signal_result(interrupted, terminated) {
            Some(r) => stopped(s, r),
            None => Next { state: RunView { phase: Phase::CatchUp, ..s }, command: CommandView::ReadClock, output: Seq::empty() },
        },
        (Phase::CatchUp, EventView::Clock(now)) => catch_up(s, now),
        (Phase::Slept, EventView::Signals { interrupted, terminated }) => match signal_result(interrupted, terminated) {
            Some(r) => stopped(s, r),
            None => probe_or_check_deadline(s),
        },
        (Phase::DeadlineCheck, EventView::Clock(now)) => if now >= s.deadline.unwrap() {
            deadline_reached(s, now)
        } else {
            issue_probe(s)
        },
        (Phase::Probing, EventView::ProbeFailed(m)) => stopped(s, ResultView::ProbeError(m)),
        (Phase::Probing, EventView::Probed { reply, rtt }) => Next {
            state: RunView {
                phase: Phase::AfterProbe,
                pending_builds: (reply is Some) != s.cfg.down,
                pending_seq: match reply { Some(q) => q, None => s.pending_seq },
                pending_rtt: rtt,
                ..s
            },
            command: CommandView::CheckSignals,
            output: Seq::empty(),
        },
        (Phase::AfterProbe, EventView::Signals { interrupted, terminated }) => match signal_result(interrupted, terminated) {
            Some(r) => stopped(s, r),
            None => handle_outcome(s),
        },
        (Phase::ResetDeadlineCheck, EventView::Clock(now)) => if now >= s.deadline.unwrap() {
            deadline_reached(s, now)
        } else {
            reset(s)
        },
        _ => Next { state: s, command: CommandView::CheckSignals, output: Seq::empty() },
    }
}

/// The output configuration of a run of `cfg`.
pub open spec fn output_config_of(cfg: Scheduler, resolved: Seq<char>, probe: Seq<char>, out: OutputConfig) -> bool {
    &&& out.verbosity == cfg.verbosity
    &&& out.target@ == cfg.target_label@
    &&& out.resolved@ == resolved
    &&& out.probe@ == probe
    &&& out.interval == cfg.interval
    &&& out.stable == cfg.stable
    &&& out.max_tries == cfg.max_tries
    &&& out.timeout == cfg.timeout
    &&& out.down == cfg.down
}

/// The most probes a run with attempt limit `m` sends: a run probes at least once.
pub open spec fn budget(m: u32) -> nat {
    if m == 0 { 1 } else { m as nat }
}

/// The current tick lies at least one interval after the last probe's tick, and has a
/// larger number (unless the tick count has reached its cap).
pub open spec fn after_last_probe(s: RunView) -> bool {
    s.last_probe matches Some((ts, tk)) ==> s.tick_start >= ts + s.cfg.interval@ && (tk < u32::MAX
        ==> s.tick > tk)
}

/// What holds of a run's state in every phase.
pub open spec fn inv(s: RunView) -> bool {
    &&& s.cfg.interval@ > 0
    &&& s.deadline == timeout_nanos(s.cfg.timeout)
    &&& s.dots < DOTS_PER_LINE
    &&& (s.dots > 0 ==> s.out.verbosity == Verbosity::Default)
    &&& s.tick_start <= max_nanos()
    &&& s.tick <= u32::MAX
    &&& s.streak <= u32::MAX
    &&& s.attempts == sat_u32(s.history.len())
    &&& (s.phase != Phase::Done ==> s.streak < s.cfg.stable || s.streak == 0)
    &&& s.pending_seq < 0x10000
    &&& match s.phase {
        Phase::Starting => s.history.len() == 0 && s.streak == 0 && s.tick == 0 && s.last_probe is None,
        Phase::Top | Phase::CatchUp | Phase::Slept | Phase::DeadlineCheck => {
            &&& (s.phase == Phase::DeadlineCheck ==> s.deadline is Some)
            &&& after_last_probe(s)
            &&& s.streak == trailing_run(s.history)
            &&& (s.cfg.max_tries matches Some(m) ==> s.history.len() < budget(m))
        },
        Phase::Probing | Phase::AfterProbe => {
            &&& s.last_probe == Some((s.tick_start, s.tick))
            &&& s.streak == trailing_run(s.history)
            &&& (s.cfg.max_tries matches Some(m) ==> s.history.len() < budget(m))
            &&& s.next_tick == s.tick_start + s.cfg.interval@
            &&& s.next_tick <= max_nanos()
        },
        Phase::ResetDeadlineCheck => {
            &&& s.last_probe == Some((s.tick_start, s.tick))
            &&& s.deadline is Some
            &&& s.history.len() > 0
            &&& !s.history.last()
            &&& s.streak == trailing_run(s.history.drop_last())
            &&& (s.cfg.max_tries matches Some(m) ==> s.history.len() <= budget(m))
            &&& s.next_tick == s.tick_start + s.cfg.interval@
            &&& s.next_tick <= max_nanos()
        },
        Phase::Done => true,
    }
}

proof fn lemma_trailing_run_push(h: Seq<bool>, b: bool)
    ensures
        trailing_run(h.push(b)) == if b { trailing_run(h) + 1 } else { 0 },
{
    assert(h.push(b).drop_last() =~= h);
}

/// Skipping `k` whole ticks from `start` stays at or before `now`.
proof fn lemma_catch_up_bound(start: nat, now: nat, interval: nat)
    requires
        interval > 0,
        start <= now,
    ensures
        start + (((now - start) as nat) / interval) * interval <= now,
{
    let x = (now - start) as nat;
    assert((x / interval) * interval <= x) by (nonlinear_arith)
        requires
            interval > 0,
    ;
}

/// Every step keeps the run's invariant.
pub proof fn lemma_step_keeps_invariant(s: RunView, e: EventView)
    requires
        inv(s),
        expects(s, e),
    ensures
        inv(transition(s, e).state),
{
    match (s.phase, e) {
        (Phase::CatchUp, EventView::Clock(now)) => {
            if now >= s.tick_start {
                lemma_catch_up_bound(s.tick_start, now, s.cfg.interval@);
            }
        },
        (Phase::AfterProbe, EventView::Signals { interrupted, terminated }) => {
            lemma_trailing_run_push(s.history, s.pending_builds);
            let c = counted(s);
            assert(c.history.drop_last() =~= s.history);
        },
        (Phase::ResetDeadlineCheck, EventView::Clock(now)) => {
            lemma_trailing_run_push(s.history.drop_last(), false);
            assert(s.history.drop_last().push(false) =~= s.history);
        },
        _ => {},
    }
}

/// A streak of `n` at the end of the history means the last `n` probes all built it.
pub proof fn lemma_trailing_run_all_built(h: Seq<bool>, n: nat)
    requires
        trailing_run(h) >= n,
    ensures
        n <= h.len(),
        forall|i: int| h.len() - n <= i < h.len() ==> h[i],
    decreases h.len(),
{
    if n > 0 {
        assert(h.len() > 0 && h.last());
        lemma_trailing_run_all_built(h.drop_last(), (n - 1) as nat);
        assert forall|i: int| h.len() - n <= i < h.len() implies h[i] by {
            if i < h.len() - 1 {
                assert(h.drop_last()[i] == h[i]);
            }
        }
    }
}

/// A run succeeds only once the last `stable` probes all matched, and it succeeds as
/// soon as they do (unless a signal comes first).
pub proof fn lemma_success_iff_stable_streak(s: RunView, e: EventView)
    requires
        inv(s),
        expects(s, e),
    ensures
        transition(s, e).command == CommandView::Finish(ResultView::Success) ==> {
            let h = transition(s, e).state.history;
            &&& s.phase == Phase::AfterProbe
            &&& h.len() >= s.cfg.stable
            &&& forall|i: int| h.len() - s.cfg.stable <= i < h.len() ==> h[i]
        },
        (s.phase == Phase::AfterProbe && e == EventView::Signals { interrupted: false, terminated: false }
            && s.pending_builds && trailing_run(s.history) + 1 >= s.cfg.stable) ==> transition(s, e).command
            == CommandView::Finish(ResultView::Success),
{
    let t = transition(s, e);
    if t.command == CommandView::Finish(ResultView::Success) {
        assert(s.phase == Phase::AfterProbe);
        lemma_trailing_run_push(s.history, s.pending_builds);
        assert(t.state.history == s.history.push(s.pending_builds));
        lemma_trailing_run_all_built(t.state.history, s.cfg.stable as nat);
    }
}

/// The streak counts the matching probes at the end of the history: a mismatching probe
/// resets it to zero, not one, and a matching probe adds one.
pub proof fn lemma_streak_is_trailing_matches(s: RunView, e: EventView)
    requires
        inv(s),
        expects(s, e),
        transition(s, e).state.phase == Phase::Top,
    ensures
        transition(s, e).state.streak == trailing_run(transition(s, e).state.history),
        transition(s, e).state.history.len() > 0 && !transition(s, e).state.history.last()
            ==> transition(s, e).state.streak == 0,
{
    lemma_step_keeps_invariant(s, e);
}

/// With an attempt limit `m`, at most `m` probes go out (one where `m` is zero), and the run
/// ends with `MaxTriesReached` only once `m` have completed.
pub proof fn lemma_attempt_budget(s: RunView, e: EventView)
    requires
        inv(s),
        expects(s, e),
    ensures
        transition(s, e).command is Probe ==> (s.cfg.max_tries matches Some(m) ==> s.history.len() + 1 <= budget(m)),
        transition(s, e).command == CommandView::Finish(ResultView::MaxTriesReached) ==> (
        s.cfg.max_tries matches Some(m) && transition(s, e).state.history.len() >= m),
{
}

/// A probe waits no longer than the start of the next tick, nor past the overall deadline,
/// and carries the tick's number (modulo 2^16) as its sequence number.
pub proof fn lemma_probe_bounded(s: RunView, e: EventView)
    requires
        inv(s),
        expects(s, e),
    ensures
        transition(s, e).command matches CommandView::Probe { seq, deadline } ==> {
            let t = transition(s, e).state;
            &&& deadline <= t.tick_start + s.cfg.interval@
            &&& (s.cfg.timeout matches Some(d) ==> deadline <= d@)
            &&& seq == t.tick % 0x10000
        },
{
}

/// A probe sent at any time `c` once its tick has started (the driver sleeps until the
/// tick before probing) waits at most one interval from `c`.
pub proof fn lemma_probe_wait_within_interval(s: RunView, e: EventView, c: nat)
    requires
        inv(s),
        expects(s, e),
        transition(s, e).command is Probe,
        c >= transition(s, e).state.tick_start,
    ensures
        transition(s, e).command->Probe_deadline <= c + s.cfg.interval@,
{
    lemma_probe_bounded(s, e);
}

/// One probe per tick, with no burst: each probe's tick starts at least one interval after
/// the previous probe's tick and carries a larger tick number (until the count reaches its
/// cap), however long the previous probe took.
pub proof fn lemma_probes_a_tick_apart(s: RunView, e: EventView)
    requires
        inv(s),
        expects(s, e),
        transition(s, e).command is Probe,
    ensures
        transition(s, e).state.last_probe == Some((transition(s, e).state.tick_start, transition(s, e).state.tick)),
        s.last_probe matches Some((ts, tk)) ==> transition(s, e).state.tick_start >= ts + s.cfg.interval@
            && (tk < u32::MAX ==> transition(s, e).state.tick > tk),
{
    if let EventView::Clock(now) = e {
        if s.phase == Phase::CatchUp && now >= s.tick_start {
            let k = ((now - s.tick_start) as nat) / s.cfg.interval@;
            assert(k * s.cfg.interval@ >= 0) by (nonlinear_arith);
        }
    }
}

/// The run ends at the deadline only with a timeout set, once the clock shows it passed.
pub proof fn lemma_deadline_only_when_passed(s: RunView, e: EventView)
    requires
        inv(s),
        expects(s, e),
        transition(s, e).command == CommandView::Finish(ResultView::Deadline),
    ensures
        s.cfg.timeout matches Some(d) && e matches EventView::Clock(now) && now >= d@,
{
}

/// No probe goes out once the overall deadline has passed: a step handed a clock reading
/// at or past the timeout never sends a probe, and where the run was checking the deadline
/// (before a probe or before a reset) it ends with `Deadline`, reporting the reading.
pub proof fn lemma_no_probe_past_deadline(s: RunView, now: nat)
    requires
        inv(s),
        expects(s, EventView::Clock(now)),
        (s.cfg.timeout matches Some(d) && now >= d@),
    ensures
        !(transition(s, EventView::Clock(now)).command is Probe),
        (s.phase == Phase::DeadlineCheck || s.phase == Phase::ResetDeadlineCheck) ==> {
            &&& transition(s, EventView::Clock(now)).command == CommandView::Finish(ResultView::Deadline)
            &&& transition(s, EventView::Clock(now)).output == terminal_text(
                s.out,
                s.dots,
                deadline_message(now),
            )
        },
{
}

/// A probe sent straight on a clock reading `now` waits past `now`: its deadline is later
/// than the reading, at most one interval after it, and no later than the timeout.
pub proof fn lemma_probe_deadline_after_reading(s: RunView, now: nat)
    requires
        inv(s),
        expects(s, EventView::Clock(now)),
        s.phase == Phase::CatchUp,
    ensures
        transition(s, EventView::Clock(now)).command matches CommandView::Probe { deadline, .. } ==> {
            &&& now < deadline
            &&& deadline <= now + s.cfg.interval@
            &&& (s.cfg.timeout matches Some(d) ==> deadline <= d@)
        },
{
    if now >= s.tick_start {
        let x = (now - s.tick_start) as nat;
        let i = s.cfg.interval@;
        assert((x / i) * i <= x && x < (x / i) * i + i) by (nonlinear_arith)
            requires
                i > 0,
        ;
    }
}

/// A sleep lasts until the tick starts, or only until the overall deadline where that
/// comes first: from the reading `now` it never reaches past the tick's start, it reaches
/// the tick's start exactly when no deadline comes before it, and it never reaches past a
/// deadline that does.
pub proof fn lemma_sleep_until_tick(s: RunView, now: nat)
    requires
        inv(s),
        expects(s, EventView::Clock(now)),
        s.phase == Phase::CatchUp,
    ensures
        transition(s, EventView::Clock(now)).command matches CommandView::Sleep(len) ==> {
            let ts = transition(s, EventView::Clock(now)).state.tick_start;
            &&& now < ts
            &&& now + len <= ts
            &&& match s.cfg.timeout {
                None => now + len == ts,
                Some(d) => if d@ >= ts {
                    now + len == ts
                } else if d@ >= now {
                    now + len == d@
                } else {
                    len == 0
                },
            }
        },
{
}

/// The attempt budget ends the run whatever the last probe's outcome: when the probe that
/// uses up an attempt limit `m` does not complete the streak, the run ends with
/// `MaxTriesReached`, reporting the attempts, once any pending deadline check has passed.
pub proof fn lemma_budget_ends_run(s: RunView, e: EventView)
    requires
        inv(s),
        expects(s, e),
        (s.cfg.max_tries matches Some(m) && s.attempts + 1 >= m),
        s.phase == Phase::AfterProbe,
        e == (EventView::Signals { interrupted: false, terminated: false }),
        !(s.pending_builds && s.streak + 1 >= s.cfg.stable),
    ensures
        transition(s, e).command == CommandView::Finish(ResultView::MaxTriesReached) || (
        !s.pending_builds && (s.cfg.timeout is Some) && transition(s, e).command == CommandView::ReadClock
            && transition(s, e).state.phase == Phase::ResetDeadlineCheck),
{
}

/// After a mismatching probe that used up the attempts, a deadline check that finds time
/// left ends the run with `MaxTriesReached`.
pub proof fn lemma_budget_ends_run_after_check(s: RunView, now: nat)
    requires
        inv(s),
        expects(s, EventView::Clock(now)),
        s.phase == Phase::ResetDeadlineCheck,
        (s.cfg.max_tries matches Some(m) && s.attempts >= m),
        (s.cfg.timeout matches Some(d) && now < d@),
    ensures
        transition(s, EventView::Clock(now)).command == CommandView::Finish(ResultView::MaxTriesReached),
{
}

/// An invalid configuration ends a run in progress only where the next tick lies past the
/// clock's range.
pub proof fn lemma_invalid_config_only_at_range_end(s: RunView, e: EventView)
    requires
        inv(s),
        expects(s, e),
        transition(s, e).command matches CommandView::Finish(ResultView::InvalidConfig(_)),
    ensures
        transition(s, e).state.tick_start + s.cfg.interval@ > max_nanos(),
{
}

/// Which outcome builds the streak: a reply normally, no response with `--down`.
pub proof fn lemma_down_inverts(s: RunView, reply: Option<nat>, rtt: Seq<char>)
    requires
        inv(s),
        s.phase == Phase::Probing,
    ensures
        transition(s, EventView::Probed { reply, rtt }).state.pending_builds == (reply is Some
            != s.cfg.down),
{
}

/// A signal ends the run at the next check: SIGINT as `Interrupted`, else SIGTERM as
/// `Terminated`.
pub proof fn lemma_signals_end_run(s: RunView, interrupted: bool, terminated: bool)
    requires
        inv(s),
        s.phase == Phase::Top || s.phase == Phase::Slept || s.phase == Phase::AfterProbe,
        interrupted || terminated,
    ensures
        transition(s, EventView::Signals { interrupted, terminated }).command == CommandView::Finish(
            if interrupted { ResultView::Interrupted } else { ResultView::Terminated },
        ),
{
}

/// Ticks only move forward; the round after a probe starts exactly one interval after the
/// probe's tick, so no two probes share a tick and none comes sooner than an interval after
/// the last.
pub proof fn lemma_ticks_advance(s: RunView, e: EventView)
    requires
        inv(s),
        expects(s, e),
        s.phase != Phase::Starting,
    ensures
        transition(s, e).state.tick_start >= s.tick_start,
        (s.phase == Phase::AfterProbe || s.phase == Phase::ResetDeadlineCheck) && transition(s, e).state.phase
            == Phase::Top ==> transition(s, e).state.tick_start == s.next_tick && transition(s, e).state.tick == sat_u32(s.tick + 1),
{
    if let EventView::Clock(now) = e {
        if s.phase == Phase::CatchUp && now >= s.tick_start {
            let k = ((now - s.tick_start) as nat) / s.cfg.interval@;
            assert(k * s.cfg.interval@ >= 0) by (nonlinear_arith);
        }
    }
}

/// Quiet mode writes nothing while the run goes on or ends.
pub proof fn lemma_quiet_is_silent(s: RunView, e: EventView)
    requires
        inv(s),
        expects(s, e),
        s.out.verbosity == Verbosity::Quiet,
    ensures
        transition(s, e).output == Seq::<char>::empty(),
{
    assert(Seq::<char>::empty() + Seq::<char>::empty() =~= Seq::<char>::empty());
}

/// A run ends only on a signal, a probe error, the deadline, the attempt budget, the
/// streak, or an interval past the clock's range; and every ended run reports one of these.
pub proof fn lemma_runs_end_for_a_reason(s: RunView, e: EventView)
    requires
        inv(s),
        expects(s, e),
        transition(s, e).state.phase == Phase::Done,
    ensures
        transition(s, e).command is Finish,
{
}

/// A probe is always sent for the current tick, after the tick has started.
pub proof fn lemma_probe_follows_tick_start(s: RunView, now: nat)
    requires
        inv(s),
        expects(s, EventView::Clock(now)),
        s.phase == Phase::CatchUp,
        transition(s, EventView::Clock(now)).command is Probe,
    ensures
        transition(s, EventView::Clock(now)).state.tick_start <= now,
        now < transition(s, EventView::Clock(now)).state.tick_start + s.cfg.interval@,
{
    let x = (now - s.tick_start) as nat;
    let i = s.cfg.interval@;
    assert((x / i) * i <= x && x < (x / i) * i + i) by (nonlinear_arith)
        requires
            i > 0,
    ;
}

/// `s` with the output configuration `out` and `dots` dots on the open line.
pub open spec fn with_output(s: RunView, out: OutputConfig, dots: nat) -> RunView {
    RunView { out, dots, ..s }
}

/// What a state decides on: everything but the output configuration and the open dots.
pub open spec fn same_decisions(a: RunView, b: RunView) -> bool {
    with_output(a, b.out, 0) == with_output(b, b.out, 0)
}

/// The verbosity changes only what is written: with the same settings and history, runs
/// that differ in their output configuration take the same decisions.
pub proof fn lemma_output_does_not_decide(s: RunView, out: OutputConfig, dots: nat, e: EventView)
    requires
        inv(s),
        inv(with_output(s, out, dots)),
        expects(s, e),
    ensures
        transition(with_output(s, out, dots), e).command == transition(s, e).command,
        same_decisions(transition(with_output(s, out, dots), e).state, transition(s, e).state),
{
}

/// The events are answers the run accepts, each in turn.
pub open spec fn well_driven(s: RunView, es: Seq<EventView>) -> bool
    decreases es.len(),
{
    es.len() == 0 || (expects(s, es[0]) && well_driven(transition(s, es[0]).state, es.drop_first()))
}

/// The tick start and tick number of each probe the run sends while taking in `es`.
pub open spec fn probes_sent(s: RunView, es: Seq<EventView>) -> Seq<(nat, nat)>
    decreases es.len(),
{
    if es.len() == 0 {
        Seq::empty()
    } else {
        let n = transition(s, es[0]);
        let rest = probes_sent(n.state, es.drop_first());
        if n.command is Probe {
            seq![(n.state.tick_start, n.state.tick)] + rest
        } else {
            rest
        }
    }
}

/// The earliest tick start the next probe can have.
pub open spec fn probe_floor(s: RunView) -> nat {
    if s.phase == Phase::Probing || s.phase == Phase::AfterProbe || s.phase == Phase::ResetDeadlineCheck {
        s.tick_start + s.cfg.interval@
    } else {
        s.tick_start
    }
}

/// The smallest tick number the next probe can have.
pub open spec fn tick_floor(s: RunView) -> nat {
    if s.phase == Phase::Probing || s.phase == Phase::AfterProbe || s.phase == Phase::ResetDeadlineCheck {
        sat_u32(s.tick + 1)
    } else {
        s.tick
    }
}

/// One step moves the floors only forward, and a probe lands on or above them.
proof fn lemma_floors_step(s: RunView, e: EventView)
    requires
        inv(s),
        expects(s, e),
        s.phase != Phase::Starting,
    ensures
        transition(s, e).state.cfg == s.cfg,
        transition(s, e).state.phase != Phase::Starting,
        transition(s, e).command is Probe ==> {
            &&& transition(s, e).state.tick_start >= probe_floor(s)
            &&& transition(s, e).state.tick >= tick_floor(s)
            &&& probe_floor(transition(s, e).state) == transition(s, e).state.tick_start + s.cfg.interval@
            &&& tick_floor(transition(s, e).state) == sat_u32(transition(s, e).state.tick + 1)
        },
        !(transition(s, e).command is Probe) && transition(s, e).state.phase != Phase::Done ==> probe_floor(
            transition(s, e).state,
        ) >= probe_floor(s) && tick_floor(transition(s, e).state) >= tick_floor(s),
{
    if let EventView::Clock(now) = e {
        if s.phase == Phase::CatchUp && now >= s.tick_start {
            let k = ((now - s.tick_start) as nat) / s.cfg.interval@;
            assert(k * s.cfg.interval@ >= 0) by (nonlinear_arith);
        }
    }
}

/// No burst over a whole run: however long each probe takes, the `k`-th probe sent from a
/// state (counting from 0) has a tick start at least `k` intervals after the earliest the
/// next probe could have, and each probe's tick number is larger than the last one's
/// (until the count reaches its cap).
pub proof fn lemma_no_burst(s: RunView, es: Seq<EventView>)
    requires
        inv(s),
        s.phase != Phase::Starting,
        well_driven(s, es),
    ensures
        forall|k: int| 0 <= k < probes_sent(s, es).len() ==>
            #[trigger] probes_sent(s, es)[k].0 >= probe_floor(s) + k * s.cfg.interval@,
        probes_sent(s, es).len() > 0 ==> probes_sent(s, es)[0].1 >= tick_floor(s),
        forall|k: int| 0 <= k < probes_sent(s, es).len() - 1 ==>
            #[trigger] probes_sent(s, es)[k + 1].1 >= sat_u32(probes_sent(s, es)[k].1 + 1),
    decreases es.len(),
{
    if es.len() > 0 {
        let n = transition(s, es[0]);
        lemma_step_keeps_invariant(s, es[0]);
        lemma_floors_step(s, es[0]);
        let rest_es = es.drop_first();
        let ps = probes_sent(s, es);
        let rest = probes_sent(n.state, rest_es);
        let i = s.cfg.interval@;
        assert(well_driven(n.state, rest_es));
        if n.state.phase == Phase::Done {
            assert(rest_es.len() == 0);
            assert(rest == Seq::<(nat, nat)>::empty());
        } else {
            lemma_no_burst(n.state, rest_es);
        }
        if n.command is Probe {
            assert(ps == seq![(n.state.tick_start, n.state.tick)] + rest);
            assert forall|k: int| 0 <= k < ps.len() implies #[trigger] ps[k].0 >= probe_floor(s) + k * i by {
                if k > 0 {
                    assert(ps[k] == rest[k - 1]);
                    assert(rest[k - 1].0 >= probe_floor(n.state) + (k - 1) * i);
                    assert((k - 1) * i + i == k * i) by (nonlinear_arith);
                } else {
                    assert(k * i == 0) by (nonlinear_arith) requires k == 0;
                }
            }
            assert forall|k: int| 0 <= k < ps.len() - 1 implies #[trigger] ps[k + 1].1 >= sat_u32(ps[k].1 + 1) by {
                assert(ps[k + 1] == rest[k]);
                if k > 0 {
                    assert(ps[k] == rest[k - 1]);
                    assert(rest[(k - 1) + 1].1 >= sat_u32(rest[k - 1].1 + 1));
                }
            }
        } else {
            assert(ps == rest);
            assert forall|k: int| 0 <= k < ps.len() implies #[trigger] ps[k].0 >= probe_floor(s) + k * i by {
                assert(rest[k].0 >= probe_floor(n.state) + k * i);
            }
        }
    }
}

/// No burst over a whole run from its start: the run begins its first tick at the first
/// clock reading `t0`, and the `k`-th probe it sends (counting from 0) has a tick start at
/// least `k` intervals after `t0`; tick numbers, whose low 16 bits are the sequence
/// numbers, increase from probe to probe (until the count reaches its cap).
pub proof fn lemma_no_burst_from_start(s: RunView, t0: nat, es: Seq<EventView>)
    requires
        inv(s),
        s.phase == Phase::Starting,
        t0 <= max_nanos(),
        well_driven(transition(s, EventView::Clock(t0)).state, es),
    ensures
        forall|k: int| 0 <= k < probes_sent(transition(s, EventView::Clock(t0)).state, es).len() ==>
            #[trigger] probes_sent(transition(s, EventView::Clock(t0)).state, es)[k].0 >= t0 + k * s.cfg.interval@,
        forall|k: int| 0 <= k < probes_sent(transition(s, EventView::Clock(t0)).state, es).len() - 1 ==>
            #[trigger] probes_sent(transition(s, EventView::Clock(t0)).state, es)[k + 1].1 >= sat_u32(
                probes_sent(transition(s, EventView::Clock(t0)).state, es)[k].1 + 1,
            ),
{
    lemma_step_keeps_invariant(s, EventView::Clock(t0));
    lemma_no_burst(transition(s, EventView::Clock(t0)).state, es);
}

/// The time the driver has at least reached after answering with `e` and being given
/// `n.command`, from `t` before: a clock reading moves it to the reading, and a sleep it is
/// told to take moves it on by the sleep's length.
pub open spec fn driver_time(t: nat, e: EventView, n: Next) -> nat {
    let t1 = match e {
        EventView::Clock(now) => now,
        _ => t,
    };
    match n.command {
        CommandView::Sleep(d) => t1 + d,
        _ => t1,
    }
}

/// While the run waits out its sleep or checks the deadline before probing, the driver
/// has reached the tick's start, or the deadline.
pub open spec fn driver_ready(s: RunView, t: nat) -> bool {
    (s.phase == Phase::Slept || s.phase == Phase::DeadlineCheck) ==> (s.tick_start <= t || (
    s.deadline matches Some(d) && d <= t))
}

/// The driver's clock never goes back, and each sleep lasts at least as long as asked.
pub open spec fn clock_honest(s: RunView, t: nat, es: Seq<EventView>) -> bool
    decreases es.len(),
{
    es.len() == 0 || ((es[0] matches EventView::Clock(now) ==> now >= t) && clock_honest(
        transition(s, es[0]).state,
        driver_time(t, es[0], transition(s, es[0])),
        es.drop_first(),
    ))
}

/// For each probe sent while taking in `es`: the time the driver has at least reached
/// when told to probe, and the probe's deadline.
pub open spec fn probe_calls(s: RunView, t: nat, es: Seq<EventView>) -> Seq<(nat, nat)>
    decreases es.len(),
{
    if es.len() == 0 {
        Seq::empty()
    } else {
        let n = transition(s, es[0]);
        let t2 = driver_time(t, es[0], n);
        let rest = probe_calls(n.state, t2, es.drop_first());
        match n.command {
            CommandView::Probe { deadline, .. } => seq![(t2, deadline)] + rest,
            _ => rest,
        }
    }
}

/// One step keeps the driver ready, and a probe's wait ends within one interval of the
/// time the driver has reached when told to probe.
proof fn lemma_driver_step(s: RunView, t: nat, e: EventView)
    requires
        inv(s),
        expects(s, e),
        driver_ready(s, t),
        e matches EventView::Clock(now) ==> now >= t,
    ensures
        driver_ready(transition(s, e).state, driver_time(t, e, transition(s, e))),
        transition(s, e).command matches CommandView::Probe { deadline, .. } ==> deadline
            <= driver_time(t, e, transition(s, e)) + s.cfg.interval@,
{
    if let EventView::Clock(now) = e {
        if s.phase == Phase::CatchUp && now >= s.tick_start {
            lemma_catch_up_bound(s.tick_start, now, s.cfg.interval@);
        }
    }
}

/// The per-probe wait is bounded by the interval from the time of the call, and by the
/// overall deadline, over a whole run: where the driver's clock never goes back and it
/// sleeps at least as long as told, each probe's deadline is at most one interval after
/// the time the driver has reached when told to probe (so after any later time it makes
/// the call at), and never past the timeout.
pub proof fn lemma_probe_waits_bounded(s: RunView, t: nat, es: Seq<EventView>)
    requires
        inv(s),
        driver_ready(s, t),
        well_driven(s, es),
        clock_honest(s, t, es),
    ensures
        forall|k: int| 0 <= k < probe_calls(s, t, es).len() ==> {
            let (c, d) = #[trigger] probe_calls(s, t, es)[k];
            &&& d <= c + s.cfg.interval@
            &&& (s.cfg.timeout matches Some(to) ==> d <= to@)
        },
    decreases es.len(),
{
    if es.len() > 0 {
        let e = es[0];
        let n = transition(s, e);
        let t2 = driver_time(t, e, n);
        lemma_step_keeps_invariant(s, e);
        lemma_driver_step(s, t, e);
        lemma_probe_bounded(s, e);
        assert(n.state.cfg == s.cfg);
        assert(well_driven(n.state, es.drop_first()));
        assert(clock_honest(n.state, t2, es.drop_first()));
        lemma_probe_waits_bounded(n.state, t2, es.drop_first());
        let calls = probe_calls(s, t, es);
        let rest = probe_calls(n.state, t2, es.drop_first());
        if n.command is Probe {
            assert(calls == seq![(t2, n.command->Probe_deadline)] + rest);
            assert forall|k: int| 0 <= k < calls.len() implies {
                let (c, d) = #[trigger] calls[k];
                &&& d <= c + s.cfg.interval@
                &&& (s.cfg.timeout matches Some(to) ==> d <= to@)
            } by {
                if k > 0 {
                    assert(calls[k] == rest[k - 1]);
                }
            }
        } else {
            assert(calls == rest);
        }
    }
}

/// A run in progress.
pub struct RunState {
    cfg: Scheduler,
    reporter: OutputReporter,
    phase: Phase,
    deadline: Option<Duration>,
    streak: u32,
    attempts: u32,
    tick: u32,
    tick_start: Duration,
    next_tick: Duration,
    pending_builds: bool,
    pending_seq: u16,
    pending_rtt: String,
    history: Ghost<Seq<bool>>,
    last_probe: Ghost<Option<(nat, nat)>>,
}

impl View for RunState {
    type V = RunView;

    closed spec fn view(&self) -> RunView {
        RunView {
            cfg: self.cfg,
            out: self.reporter.spec_config(),
            phase: self.phase,
            dots: self.reporter.spec_dots(),
            deadline: timeout_nanos(self.deadline),
            streak: self.streak as nat,
            attempts: self.attempts as nat,
            tick: self.tick as nat,
            tick_start: self.tick_start@,
            next_tick: self.next_tick@,
            pending_builds: self.pending_builds,
            pending_seq: self.pending_seq as nat,
            pending_rtt: self.pending_rtt@,
            history: self.history@,
            last_probe: self.last_probe@,
        }
    }
}

impl Scheduler {
    /// Starts a run against the target that resolved to `resolved`, with the probe backend
    /// `probe`. `timeout_fits` tells whether the clock can represent the deadline (the
    /// start plus the timeout). A zero interval, or a deadline the clock cannot represent,
    /// ends the run at once; else the startup line is written and the first tick begins.
    pub fn start(self, resolved: String, probe: String, timeout_fits: bool) -> (r: (RunState, Step))
        ensures
            self.interval@ == 0 ==> r.0@.phase == Phase::Done && r.1.output@ == Seq::<char>::empty()
                && r.1.command@ == CommandView::Finish(ResultView::InvalidConfig("--interval must be > 0"@)),
            self.interval@ > 0 && self.timeout is Some && !timeout_fits ==> r.0@.phase == Phase::Done
                && r.1.output@ == Seq::<char>::empty() && r.1.command@ == CommandView::Finish(
                ResultView::InvalidConfig("--timeout is too large"@),
            ),
            self.interval@ > 0 && (self.timeout is None || timeout_fits) ==> {
                &&& r.0.wf()
                &&& r.0@.phase == Phase::Starting
                &&& r.0@.cfg == self
                &&& output_config_of(self, resolved@, probe@, r.0@.out)
                &&& r.0@.dots == 0
                &&& r.0@.streak == 0
                &&& r.0@.attempts == 0
                &&& r.0@.history == Seq::<bool>::empty()
                &&& r.0@.deadline == timeout_nanos(self.timeout)
                &&& r.0@.tick == 0
                &&& r.0@.last_probe is None
                &&& r.1.output@ == startup_text(r.0@.out)
                &&& r.1.command@ == CommandView::ReadClock
            },
    {
        let invalid = if self.interval.is_zero() {
            Some(string_of("--interval must be > 0"))
        } else if self.timeout.is_some() && !timeout_fits {
            Some(string_of("--timeout is too large"))
        } else {
            None
        };
        let config = OutputConfig {
            verbosity: self.verbosity,
            target: self.target_label.clone(),
            resolved,
            probe,
            interval: self.interval,
            stable: self.stable,
            max_tries: self.max_tries,
            timeout: self.timeout,
            down: self.down,
        };
        let reporter = OutputReporter::new(config);
        let deadline = self.timeout;
        let mut state = RunState {
            cfg: self,
            reporter,
            phase: Phase::Starting,
            deadline,
            streak: 0,
            attempts: 0,
            tick: 0,
            tick_start: Duration::zero(),
            next_tick: Duration::zero(),
            pending_builds: false,
            pending_seq: 0,
            pending_rtt: String::new(),
            history: Ghost(Seq::empty()),
            last_probe: Ghost(None),
        };
        match invalid {
            Some(m) => {
                state.phase = Phase::Done;
                (state, Step { output: String::new(), command: Command::Finish(RunResult::InvalidConfig(m)) })
            },
            None => {
                let text = state.reporter.print_startup();
                (state, Step { output: text, command: Command::ReadClock })
            },
        }
    }
}

impl RunState {
    /// The run's invariant holds.
    pub closed spec fn wf(&self) -> bool {
        inv(self@)
    }

    /// A well-formed run state satisfies the run's invariant.
    pub proof fn lemma_wf_inv(&self)
        requires
            self.wf(),
        ensures
            inv(self@),
    {
    }

    /// Whether the run is over.
    pub fn is_done(&self) -> (b: bool)
        ensures
            b == (self@.phase == Phase::Done),
    {
        self.phase == Phase::Done
    }

    /// Whether `event` answers the last command (what `step` requires).
    pub fn accepts(&self, event: &Event) -> (b: bool)
        ensures
            b == expects(self@, event@),
    {
        match event {
            Event::Clock(now) => {
                // Any clock reading lies within a `Duration`'s range.
                let _ = now.as_nanos();
                match self.phase {
                    Phase::Starting | Phase::CatchUp | Phase::DeadlineCheck | Phase::ResetDeadlineCheck => true,
                    _ => false,
                }
            },
            Event::Signals(_) => match self.phase {
                Phase::Top | Phase::Slept | Phase::AfterProbe => true,
                _ => false,
            },
            Event::Probed { .. } => self.phase == Phase::Probing,
        }
    }

    fn finish(&mut self, r: RunResult, output: String) -> (st: Step)
        ensures
            final(self)@ == finished(old(self)@, r@, output@).state,
            st.command@ == CommandView::Finish(r@),
            st.output@ == output@,
    {
        self.phase = Phase::Done;
        Step { output, command: Command::Finish(r) }
    }

    fn stop(&mut self, r: RunResult) -> (st: Step)
        ensures
            final(self)@ == stopped(old(self)@, r@).state,
            st.command@ == stopped(old(self)@, r@).command,
            st.output@ == stopped(old(self)@, r@).output,
    {
        let out = self.reporter.finish_dot_line();
        self.finish(r, out)
    }

    fn end_at_deadline(&mut self, now: Duration) -> (st: Step)
        ensures
            final(self)@ == deadline_reached(old(self)@, now@).state,
            st.command@ == deadline_reached(old(self)@, now@).command,
            st.output@ == deadline_reached(old(self)@, now@).output,
    {
        let out = self.reporter.print_deadline(now);
        self.finish(RunResult::Deadline, out)
    }

    fn issue_probe(&mut self) -> (st: Step)
        ensures
            final(self)@ == issue_probe(old(self)@).state,
            st.command@ == issue_probe(old(self)@).command,
            st.output@ == issue_probe(old(self)@).output,
    {
        match self.tick_start.checked_add(&self.cfg.interval) {
            None => self.finish(RunResult::InvalidConfig(string_of("--interval is too large")), String::new()),
            Some(nt) => {
                let pd = match &self.deadline {
                    Some(d) => if d.is_less(&nt) {
                        *d
                    } else {
                        nt
                    },
                    None => nt,
                };
                let seq = (self.tick % 65536) as u16;
                self.next_tick = nt;
                self.pending_seq = seq;
                self.last_probe = Ghost(Some((self.tick_start@, self.tick as nat)));
                self.phase = Phase::Probing;
                Step { output: String::new(), command: Command::Probe { seq, deadline: pd } }
            },
        }
    }

    fn probe_or_check_deadline(&mut self) -> (st: Step)
        ensures
            final(self)@ == probe_or_check_deadline(old(self)@).state,
            st.command@ == probe_or_check_deadline(old(self)@).command,
            st.output@ == probe_or_check_deadline(old(self)@).output,
    {
        if self.deadline.is_some() {
            self.phase = Phase::DeadlineCheck;
            Step { output: String::new(), command: Command::ReadClock }
        } else {
            self.issue_probe()
        }
    }

    fn catch_up(&mut self, now: Duration) -> (st: Step)
        requires
            inv(old(self)@),
        ensures
            final(self)@ == catch_up(old(self)@, now@).state,
            st.command@ == catch_up(old(self)@, now@).command,
            st.output@ == catch_up(old(self)@, now@).output,
    {
        if now.is_less(&self.tick_start) {
            let wait = match &self.deadline {
                Some(d) => if d.is_less(&self.tick_start) {
                    d.saturating_sub(&now)
                } else {
                    self.tick_start.saturating_sub(&now)
                },
                None => self.tick_start.saturating_sub(&now),
            };
            self.phase = Phase::Slept;
            return Step { output: String::new(), command: Command::Sleep(wait) };
        }
        let now_n = now.as_nanos();
        let start_n = self.tick_start.as_nanos();
        let interval_n = self.cfg.interval.as_nanos();
        let k = (now_n - start_n) / interval_n;
        proof {
            lemma_catch_up_bound(start_n as nat, now_n as nat, interval_n as nat);
        }
        let skipped = k * interval_n;
        self.tick_start = Duration::from_nanos(start_n + skipped);
        self.tick = if k >= (u32::MAX - self.tick) as u128 {
            u32::MAX
        } else {
            self.tick + k as u32
        };
        self.probe_or_check_deadline()
    }

    fn after_outcome(&mut self, output: String) -> (st: Step)
        ensures
            final(self)@ == after_outcome(old(self)@, output@).state,
            st.command@ == after_outcome(old(self)@, output@).command,
            st.output@ == after_outcome(old(self)@, output@).output,
    {
        match self.cfg.max_tries {
            Some(m) => {
                if self.attempts >= m {
                    let mut out = output;
                    let t = self.reporter.print_max_tries(self.attempts);
                    push_str(&mut out, t.as_str());
                    return self.finish(RunResult::MaxTriesReached, out);
                }
            },
            None => {},
        }
        self.tick_start = self.next_tick;
        self.tick = self.tick.saturating_add(1);
        self.phase = Phase::Top;
        Step { output, command: Command::CheckSignals }
    }

    fn reset(&mut self) -> (st: Step)
        ensures
            final(self)@ == reset(old(self)@).state,
            st.command@ == reset(old(self)@).command,
            st.output@ == reset(old(self)@).output,
    {
        self.streak = 0;
        let out = self.reporter.print_reset(self.pending_seq, self.pending_rtt.as_str());
        self.after_outcome(out)
    }

    fn handle_outcome(&mut self) -> (st: Step)
        requires
            inv(old(self)@),
            old(self)@.phase == Phase::AfterProbe,
        ensures
            final(self)@ == handle_outcome(old(self)@).state,
            st.command@ == handle_outcome(old(self)@).command,
            st.output@ == handle_outcome(old(self)@).output,
    {
        self.attempts = self.attempts.saturating_add(1);
        self.history = Ghost(self.history@.push(self.pending_builds));
        if self.pending_builds {
            let k = self.streak + 1;
            self.streak = k;
            if k >= self.cfg.stable {
                let out = self.reporter.print_final_ok(k, self.pending_rtt.as_str(), self.pending_seq);
                self.finish(RunResult::Success, out)
            } else {
                let out = self.reporter.print_progress(k, self.pending_rtt.as_str(), self.pending_seq);
                self.after_outcome(out)
            }
        } else if self.deadline.is_some() {
            self.phase = Phase::ResetDeadlineCheck;
            Step { output: String::new(), command: Command::ReadClock }
        } else {
            self.reset()
        }
    }

    /// Takes in what happened in answer to the last command; returns the text to write
    /// and the next command.
    pub fn step(&mut self, event: Event) -> (st: Step)
        requires
            old(self).wf(),
            expects(old(self)@, event@),
        ensures
            final(self).wf(),
            final(self)@ == transition(old(self)@, event@).state,
            st.command@ == transition(old(self)@, event@).command,
            st.output@ == transition(old(self)@, event@).output,
    {
        proof {
            lemma_step_keeps_invariant(self@, event@);
        }
        match event {
            Event::Clock(now) => match self.phase {
                Phase::Starting => {
                    self.tick_start = now;
                    self.phase = Phase::Top;
                    Step { output: String::new(), command: Command::CheckSignals }
                },
                Phase::CatchUp => self.catch_up(now),
                Phase::DeadlineCheck => {
                    let d = match &self.deadline {
                        Some(d) => *d,
                        None => Duration::zero(),
                    };
                    if now.is_less(&d) {
                        self.issue_probe()
                    } else {
                        self.end_at_deadline(now)
                    }
                },
                Phase::ResetDeadlineCheck => {
                    let d = match &self.deadline {
                        Some(d) => *d,
                        None => Duration::zero(),
                    };
                    if now.is_less(&d) {
                        self.reset()
                    } else {
                        self.end_at_deadline(now)
                    }
                },
                _ => Step { output: String::new(), command: Command::CheckSignals },
            },
            Event::Signals(signals) => match check_signals(signals) {
                Some(r) => self.stop(r),
                None => match self.phase {
                    Phase::Top => {
                        self.phase = Phase::CatchUp;
                        Step { output: String::new(), command: Command::ReadClock }
                    },
                    Phase::Slept => self.probe_or_check_deadline(),
                    Phase::AfterProbe => self.handle_outcome(),
                    _ => Step { output: String::new(), command: Command::CheckSignals },
                },
            },
            Event::Probed { outcome, rtt } => match outcome {
                Err(e) => self.stop(RunResult::ProbeError(e)),
                Ok(o) => {
                    let (responded, seq) = match o {
                        ProbeOutcome::Success { seq, .. } => (true, seq),
                        ProbeOutcome::NoResponse => (false, self.pending_seq),
                    };
                    self.pending_builds = responded != self.cfg.down;
                    self.pending_seq = seq;
                    self.pending_rtt = rtt;
                    self.phase = Phase::AfterProbe;
                    Step { output: String::new(), command: Command::CheckSignals }
                },
            },
        }
    }
}

} // verus!
