use bide::duration::Duration;
use bide::output::Verbosity;
use bide::probe::ProbeOutcome;
use bide::scheduler::{check_signals, Command, Event, RunResult, Scheduler, Signals};

/// Drives a run with a simulated clock (time since the program started) and a list of
/// probe outcomes; `None` answers each probe with a reply carrying its sequence number.
struct Drive {
    result: RunResult,
    output: String,
    probes: Vec<(u16, Duration, Duration)>,
    saw_expired_deadline: bool,
}

fn drive(
    scheduler: Scheduler,
    started_ago: Duration,
    outcomes: Option<Vec<ProbeOutcome>>,
    probe_takes: Duration,
    signal_after_probes: Option<(usize, Signals)>,
) -> Drive {
    drive_with(scheduler, started_ago, outcomes, probe_takes, true, signal_after_probes)
}

/// As `drive`; with `cap` false a probe may overrun its deadline.
fn drive_with(
    scheduler: Scheduler,
    started_ago: Duration,
    outcomes: Option<Vec<ProbeOutcome>>,
    probe_takes: Duration,
    cap: bool,
    signal_after_probes: Option<(usize, Signals)>,
) -> Drive {
    let (mut state, mut step) = scheduler.start("192.0.2.1".to_string(), "fake".to_string(), true);
    let mut now = started_ago;
    let mut output = String::new();
    let mut probes = Vec::new();
    let mut saw_expired_deadline = false;
    let mut outcomes = outcomes;
    let quiet = Signals {
        interrupted: false,
        terminated: false,
    };
    loop {
        output.push_str(&step.output);
        let signals = match signal_after_probes {
            Some((n, s)) if probes.len() >= n => s,
            _ => quiet,
        };
        let event = match step.command {
            Command::Finish(result) => {
                return Drive {
                    result,
                    output,
                    probes,
                    saw_expired_deadline,
                }
            }
            Command::ReadClock => Event::Clock(now),
            Command::CheckSignals => Event::Signals(signals),
            Command::Sleep(d) => {
                now = now.checked_add(&d).unwrap();
                Event::Signals(signals)
            }
            Command::Probe { seq, deadline } => {
                if !now.is_less(&deadline) {
                    saw_expired_deadline = true;
                }
                probes.push((seq, now, deadline));
                let outcome = match outcomes.as_mut() {
                    Some(list) => list.remove(0),
                    None => ProbeOutcome::Success {
                        rtt: Duration::zero(),
                        seq,
                    },
                };
                let next = now.checked_add(&probe_takes).unwrap();
                now = if cap && deadline.is_less(&next) { deadline } else { next };
                Event::Probed {
                    outcome: Ok(outcome),
                    rtt: "-".to_string(),
                }
            }
        };
        step = state.step(event);
    }
}

fn scheduler(stable: u32, max_tries: Option<u32>, timeout: Option<Duration>, down: bool) -> Scheduler {
    Scheduler {
        interval: Duration::from_millis(1),
        stable,
        max_tries,
        timeout,
        down,
        verbosity: Verbosity::Quiet,
        target_label: "server01".to_string(),
    }
}

fn reply(seq: u16) -> ProbeOutcome {
    ProbeOutcome::Success {
        rtt: Duration::zero(),
        seq,
    }
}

#[test]
fn down_mode_builds_streak_on_no_response() {
    let run = drive(
        scheduler(2, Some(2), Some(Duration::from_secs(1)), true),
        Duration::zero(),
        Some(vec![ProbeOutcome::NoResponse, ProbeOutcome::NoResponse]),
        Duration::zero(),
        None,
    );
    assert!(matches!(run.result, RunResult::Success));
}

#[test]
fn stable_one_succeeds_on_first_match() {
    let run = drive(
        scheduler(1, Some(1), Some(Duration::from_secs(1)), false),
        Duration::zero(),
        Some(vec![reply(0)]),
        Duration::zero(),
        None,
    );
    assert!(matches!(run.result, RunResult::Success));
}

#[test]
fn down_mode_reply_resets_streak() {
    // Sequence under --down (NoResponse builds, Success resets):
    // miss -> 1, reply -> 0 (reset), miss -> 1, miss -> 2 -> Success at stable=2.
    let run = drive(
        scheduler(2, Some(4), Some(Duration::from_secs(1)), true),
        Duration::zero(),
        Some(vec![
            ProbeOutcome::NoResponse,
            reply(1),
            ProbeOutcome::NoResponse,
            ProbeOutcome::NoResponse,
        ]),
        Duration::zero(),
        None,
    );
    assert!(matches!(run.result, RunResult::Success));
}

#[test]
fn scheduler_does_not_replay_ticks_lost_before_run_starts() {
    let mut s = scheduler(1, Some(1), None, false);
    s.interval = Duration::from_millis(10);
    let run = drive(s, Duration::from_millis(100), None, Duration::zero(), None);
    assert!(matches!(run.result, RunResult::Success));
    assert!(!run.saw_expired_deadline);
}

#[test]
fn mismatch_resets_streak_to_zero_not_one() {
    let mut s = scheduler(3, None, None, false);
    s.verbosity = Verbosity::Default;
    let run = drive(
        s,
        Duration::zero(),
        Some(vec![
            reply(0),
            reply(1),
            ProbeOutcome::NoResponse,
            reply(3),
            reply(4),
            reply(5),
        ]),
        Duration::zero(),
        None,
    );
    assert!(matches!(run.result, RunResult::Success));
    assert_eq!(
        run.output,
        "server01: waiting for 3 stable fake replies every 1ms\nserver01: 1/3\nserver01: 2/3\nserver01: waiting .\nserver01: 1/3\nserver01: 2/3\nserver01: 3/3 ok\n"
    );
    assert_eq!(run.probes.len(), 6);
}

#[test]
fn max_tries_caps_attempts() {
    let mut s = scheduler(3, Some(4), None, false);
    s.verbosity = Verbosity::Default;
    let run = drive(
        s,
        Duration::zero(),
        Some(vec![
            reply(0),
            ProbeOutcome::NoResponse,
            reply(2),
            ProbeOutcome::NoResponse,
        ]),
        Duration::zero(),
        None,
    );
    assert!(matches!(run.result, RunResult::MaxTriesReached));
    assert_eq!(run.probes.len(), 4);
    assert!(run.output.ends_with(
        "server01: waiting .\nserver01: max tries reached after 4 attempts\n"
    ));
    assert_eq!(run.result.exit_code(), 1);
}

#[test]
fn deadline_ends_the_run() {
    let mut s = scheduler(3, None, Some(Duration::from_millis(10)), false);
    s.interval = Duration::from_millis(3);
    s.verbosity = Verbosity::Default;
    let run = drive(
        s,
        Duration::zero(),
        Some(vec![ProbeOutcome::NoResponse; 10]),
        Duration::from_millis(3),
        None,
    );
    assert!(matches!(run.result, RunResult::Deadline));
    // Every probe waits until the next tick at most, and never past the deadline.
    for (i, (seq, start, deadline)) in run.probes.iter().enumerate() {
        assert_eq!(*seq as usize, i);
        assert!(!Duration::from_millis(10).is_less(deadline));
        assert!(start.is_less(deadline));
    }
    assert!(run.output.ends_with("server01: deadline reached after 10ms\n"));
    assert_eq!(run.result.exit_code(), 1);
}

#[test]
fn slow_probes_skip_missed_ticks() {
    let mut s = scheduler(3, Some(3), None, false);
    s.interval = Duration::from_millis(10);
    // Each probe overruns its tick: 25 ms for a 10 ms interval. Ticks that passed meanwhile
    // are skipped, never made up with a burst of probes.
    let run = drive_with(
        s,
        Duration::zero(),
        Some(vec![ProbeOutcome::NoResponse; 3]),
        Duration::from_millis(25),
        false,
        None,
    );
    assert!(matches!(run.result, RunResult::MaxTriesReached));
    let seqs: Vec<u16> = run.probes.iter().map(|p| p.0).collect();
    assert_eq!(seqs, vec![0, 2, 5]);
    let starts: Vec<u128> = run.probes.iter().map(|p| p.1.as_millis()).collect();
    assert_eq!(starts, vec![0, 25, 50]);
    for w in run.probes.windows(2) {
        assert!(!w[1].1.is_less(&w[0].2));
    }
}

#[test]
fn quiet_runs_write_nothing() {
    let run = drive(
        scheduler(2, Some(5), Some(Duration::from_secs(1)), false),
        Duration::zero(),
        Some(vec![reply(0), ProbeOutcome::NoResponse, reply(2), reply(3)]),
        Duration::zero(),
        None,
    );
    assert!(matches!(run.result, RunResult::Success));
    assert!(run.output.is_empty());
}

#[test]
fn signals_stop_the_run() {
    let both = Signals {
        interrupted: true,
        terminated: true,
    };
    let run = drive(
        scheduler(3, None, None, false),
        Duration::zero(),
        None,
        Duration::zero(),
        Some((1, both)),
    );
    assert!(matches!(run.result, RunResult::Interrupted));
    assert_eq!(run.result.exit_code(), 130);
    let term = Signals {
        interrupted: false,
        terminated: true,
    };
    let run = drive(
        scheduler(3, None, None, false),
        Duration::zero(),
        None,
        Duration::zero(),
        Some((0, term)),
    );
    assert!(matches!(run.result, RunResult::Terminated));
    assert_eq!(run.result.exit_code(), 143);
    assert!(check_signals(Signals {
        interrupted: false,
        terminated: false
    })
    .is_none());
}

#[test]
fn invalid_settings_end_the_run_at_once() {
    let mut s = scheduler(3, None, None, false);
    s.interval = Duration::zero();
    let (state, step) = s.start("192.0.2.1".to_string(), "icmp".to_string(), true);
    assert!(state.is_done());
    assert!(step.output.is_empty());
    match step.command {
        Command::Finish(RunResult::InvalidConfig(m)) => assert_eq!(m, "--interval must be > 0"),
        _ => panic!("expected an invalid configuration"),
    }
    let s = scheduler(3, None, Some(Duration::from_secs(5)), false);
    let (_, step) = s.start("192.0.2.1".to_string(), "icmp".to_string(), false);
    match step.command {
        Command::Finish(r) => {
            assert_eq!(r.exit_code(), 2);
            match r {
                RunResult::InvalidConfig(m) => assert_eq!(m, "--timeout is too large"),
                _ => panic!("expected an invalid configuration"),
            }
        }
        _ => panic!("expected an invalid configuration"),
    }
}

#[test]
fn sleeps_until_the_next_tick() {
    let mut s = scheduler(2, None, None, false);
    s.interval = Duration::from_millis(100);
    let (mut state, step) = s.start("a".to_string(), "icmp".to_string(), true);
    assert!(matches!(step.command, Command::ReadClock));
    let no = Signals {
        interrupted: false,
        terminated: false,
    };
    let step = state.step(Event::Clock(Duration::from_millis(5)));
    assert!(matches!(step.command, Command::CheckSignals));
    let step = state.step(Event::Signals(no));
    assert!(matches!(step.command, Command::ReadClock));
    let step = state.step(Event::Clock(Duration::from_millis(5)));
    match step.command {
        Command::Probe { seq, deadline } => {
            assert_eq!(seq, 0);
            assert_eq!(deadline, Duration::from_millis(105));
        }
        _ => panic!("expected a probe"),
    }
    let step = state.step(Event::Probed {
        outcome: Ok(reply(0)),
        rtt: "-".to_string(),
    });
    assert!(matches!(step.command, Command::CheckSignals));
    let step = state.step(Event::Signals(no));
    assert!(matches!(step.command, Command::CheckSignals));
    let step = state.step(Event::Signals(no));
    assert!(matches!(step.command, Command::ReadClock));
    let step = state.step(Event::Clock(Duration::from_millis(30)));
    match step.command {
        Command::Sleep(d) => assert_eq!(d, Duration::from_millis(75)),
        _ => panic!("expected a sleep"),
    }
}

#[test]
fn probe_errors_end_the_run() {
    let s = scheduler(2, None, None, false);
    let (mut state, _) = s.start("a".to_string(), "icmp".to_string(), true);
    let no = Signals {
        interrupted: false,
        terminated: false,
    };
    state.step(Event::Clock(Duration::zero()));
    state.step(Event::Signals(no));
    state.step(Event::Clock(Duration::zero()));
    let step = state.step(Event::Probed {
        outcome: Err(bide::probe::ProbeError {
            message: "send failed: x".to_string(),
        }),
        rtt: "-".to_string(),
    });
    match step.command {
        Command::Finish(r) => {
            assert_eq!(r.exit_code(), 3);
            assert!(matches!(r, RunResult::ProbeError(e) if e.message == "send failed: x"));
        }
        _ => panic!("expected the run to end"),
    }
    assert_eq!(RunResult::Success.exit_code(), 0);
}

#[test]
fn runs_accept_only_the_answer_to_their_command() {
    let s = scheduler(2, None, None, false);
    let (mut state, _) = s.start("a".to_string(), "icmp".to_string(), true);
    let no = Signals {
        interrupted: false,
        terminated: false,
    };
    assert!(state.accepts(&Event::Clock(Duration::zero())));
    assert!(!state.accepts(&Event::Signals(no)));
    state.step(Event::Clock(Duration::zero()));
    assert!(state.accepts(&Event::Signals(no)));
    assert!(!state.accepts(&Event::Clock(Duration::zero())));
    assert!(!state.is_done());
}
