use bide::cli::{parse_duration_arg, Cli};
use bide::duration::Duration;
use bide::output::Verbosity;

#[test]
fn parses_duration_suffixes() {
    assert_eq!(parse_duration_arg("30").unwrap(), Duration::from_secs(30));
    assert_eq!(
        parse_duration_arg("500ms").unwrap(),
        Duration::from_millis(500)
    );
    assert_eq!(parse_duration_arg("3s").unwrap(), Duration::from_secs(3));
    assert_eq!(parse_duration_arg("2m").unwrap(), Duration::from_secs(120));
    assert_eq!(parse_duration_arg("1h").unwrap(), Duration::from_secs(3600));
    assert_eq!(parse_duration_arg("0").unwrap(), Duration::zero());
}

#[test]
fn rejects_invalid_durations() {
    for raw in ["", "-1s", "1.5s", "1d", "ms"] {
        assert!(parse_duration_arg(raw).is_err(), "{raw}");
    }
}

#[test]
fn duration_suffixes_are_case_sensitive() {
    // FR-13 specifies lowercase suffixes only; lock that in.
    for raw in ["3S", "3MS", "2M", "1H"] {
        assert!(parse_duration_arg(raw).is_err(), "{raw}");
    }
}

#[test]
fn duration_errors_carry_their_messages() {
    assert_eq!(parse_duration_arg("").unwrap_err(), "duration cannot be empty");
    assert_eq!(parse_duration_arg("-1s").unwrap_err(), "duration cannot be negative");
    assert_eq!(
        parse_duration_arg("1.5s").unwrap_err(),
        "invalid duration '1.5s'; use a whole number with optional ms, s, m, or h suffix"
    );
    assert_eq!(
        parse_duration_arg("ms").unwrap_err(),
        "invalid duration 'ms'; use a whole number with optional ms, s, m, or h suffix"
    );
    assert_eq!(
        parse_duration_arg("18446744073709551616").unwrap_err(),
        "duration '18446744073709551616' is too large"
    );
    assert_eq!(
        parse_duration_arg("307445734561825861m").unwrap_err(),
        "duration '307445734561825861m' is too large"
    );
    assert_eq!(
        parse_duration_arg("5124095576030432h").unwrap_err(),
        "duration '5124095576030432h' is too large"
    );
}

#[test]
fn duration_edges_parse() {
    assert_eq!(
        parse_duration_arg("18446744073709551615").unwrap(),
        Duration::from_secs(u64::MAX)
    );
    assert_eq!(
        parse_duration_arg("18446744073709551615ms").unwrap(),
        Duration::from_millis(u64::MAX)
    );
    assert_eq!(
        parse_duration_arg("307445734561825860m").unwrap(),
        Duration::from_secs(307445734561825860 * 60)
    );
    assert_eq!(parse_duration_arg("007s").unwrap(), Duration::from_secs(7));
    assert_eq!(parse_duration_arg("1500ms").unwrap().as_millis(), 1500);
}

fn cli(interval: Duration, stable: u32, timeout: Duration, target: &str) -> Cli {
    Cli {
        interval,
        stable,
        max_tries: 0,
        timeout,
        down: false,
        quiet: false,
        verbose: false,
        target: target.to_string(),
    }
}

#[test]
fn option_checks_come_in_order() {
    let three = Duration::from_secs(3);
    let zero = Duration::zero();
    assert_eq!(
        cli(zero, 0, zero, "").check_with(true, true).unwrap_err(),
        "--interval must be > 0 (this is a wait tool, not a flooder)"
    );
    assert_eq!(
        cli(three, 0, zero, "").check_with(false, true).unwrap_err(),
        "--interval is too large"
    );
    assert_eq!(
        cli(three, 0, three, "").check_with(true, false).unwrap_err(),
        "--timeout is too large"
    );
    assert_eq!(
        cli(three, 0, zero, "").check_with(true, false).unwrap_err(),
        "--stable must be > 0"
    );
    assert_eq!(
        cli(three, 3, zero, "").check_with(true, true).unwrap_err(),
        "target cannot be empty"
    );
    let t = cli(three, 3, zero, "server01").check_with(true, true).unwrap();
    assert_eq!(t.host(), "server01");
}

#[test]
fn options_map_to_the_run_settings() {
    let mut c = cli(Duration::from_secs(3), 3, Duration::zero(), "icmp://server01");
    let t = c.check_with(true, true).unwrap();
    let s = c.scheduler(&t);
    assert!(s.max_tries.is_none());
    assert!(s.timeout.is_none());
    assert_eq!(s.target_label, "server01");
    assert_eq!(s.verbosity, Verbosity::Default);
    c.max_tries = 10;
    c.timeout = Duration::from_secs(30);
    c.quiet = true;
    c.verbose = true;
    let s = c.scheduler(&t);
    assert_eq!(s.max_tries, Some(10));
    assert_eq!(s.timeout, Some(Duration::from_secs(30)));
    assert_eq!(s.verbosity, Verbosity::Quiet);
    c.quiet = false;
    assert_eq!(c.verbosity(), Verbosity::Verbose);
}

#[test]
fn validate_uses_the_clock() {
    let c = cli(Duration::from_secs(3), 3, Duration::from_secs(u64::MAX), "server01");
    assert_eq!(
        c.validate(std::time::Instant::now()).unwrap_err(),
        "--timeout is too large"
    );
    let c = cli(Duration::from_secs(3), 3, Duration::zero(), "server01");
    assert!(c.validate(std::time::Instant::now()).is_ok());
}
