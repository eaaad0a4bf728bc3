use bide::cli::parse_duration_arg;
use bide::duration::Duration;
use bide::output::{format_duration, OutputConfig, OutputReporter, Verbosity};

fn test_config(verbosity: Verbosity, down: bool) -> OutputConfig {
    OutputConfig {
        verbosity,
        target: "server01".to_string(),
        resolved: "192.0.2.1".to_string(),
        probe: "icmp".to_string(),
        interval: Duration::from_secs(3),
        stable: 3,
        max_tries: None,
        timeout: None,
        down,
    }
}

#[test]
fn formats_durations_for_display() {
    assert_eq!(format_duration(Duration::zero()), "0");
    assert_eq!(format_duration(Duration::from_millis(500)), "500ms");
    assert_eq!(format_duration(Duration::from_secs(3)), "3s");
    assert_eq!(format_duration(Duration::from_secs(120)), "2m");
    assert_eq!(format_duration(Duration::from_secs(3600)), "1h");
    assert_eq!(format_duration(Duration::from_secs(90)), "90s");
}

#[test]
fn formats_sub_millisecond_parts() {
    assert_eq!(format_duration(Duration::from_millis(1500)), "1500ms");
    assert_eq!(format_duration(Duration::new(0, 500_000)), "0ms");
    assert_eq!(format_duration(Duration::new(2, 500_000)), "2s");
    assert_eq!(format_duration(Duration::from_secs(7200)), "2h");
    assert_eq!(format_duration(Duration::from_secs(u64::MAX)), "18446744073709551615s");
}

#[test]
fn formatted_durations_parse_back() {
    for d in [
        Duration::from_millis(1),
        Duration::from_millis(500),
        Duration::from_millis(1500),
        Duration::from_secs(3),
        Duration::from_secs(90),
        Duration::from_secs(120),
        Duration::from_secs(3600),
        Duration::from_secs(86400),
        Duration::zero(),
    ] {
        assert_eq!(parse_duration_arg(format_duration(d).as_str()).unwrap(), d);
    }
}

#[test]
fn default_dots_wrap_and_finish_before_progress() {
    let mut output = OutputReporter::new(test_config(Verbosity::Default, false));
    let mut text = String::new();

    for seq in 0..51 {
        text.push_str(&output.print_reset(seq, "-"));
    }
    text.push_str(&output.print_progress(1, "-", 51));

    assert_eq!(
        text,
        format!(
            "server01: waiting {}\nserver01: waiting .\nserver01: 1/3\n",
            ".".repeat(50)
        )
    );
}

#[test]
fn default_deadline_uses_duration_formatting() {
    let mut output = OutputReporter::new(test_config(Verbosity::Default, false));
    let mut text = String::new();

    text.push_str(&output.print_reset(0, "-"));
    text.push_str(&output.print_deadline(Duration::from_millis(500)));

    assert!(text.starts_with("server01: waiting .\n"));
    assert!(text.contains("server01: deadline reached after "));
    assert!(text.contains("ms\n"));
    assert!(!text.contains("after 0s"));
}

#[test]
fn verbose_down_reset_is_line_oriented() {
    let mut output = OutputReporter::new(test_config(Verbosity::Verbose, true));
    let mut text = String::new();

    text.push_str(&output.print_startup());
    // The round-trip time of 2 ms, as the program renders it.
    text.push_str(&output.print_reset(7, "2.00ms"));

    assert_eq!(
        text,
        "bide: probe=icmp target=server01 addr=192.0.2.1 interval=3s stable=3 max-tries=none timeout=none mode=down\nserver01: responded seq=7 rtt=2.00ms - streak reset\n"
    );
}

#[test]
fn quiet_output_is_empty() {
    let mut output = OutputReporter::new(test_config(Verbosity::Quiet, false));
    let mut text = String::new();

    text.push_str(&output.print_startup());
    text.push_str(&output.print_reset(1, "-"));
    text.push_str(&output.print_progress(1, "-", 1));
    text.push_str(&output.print_final_ok(3, "-", 3));
    text.push_str(&output.print_deadline(Duration::zero()));
    text.push_str(&output.print_max_tries(10));

    assert!(text.is_empty());
}

#[test]
fn default_startup_and_terminal_lines() {
    let mut output = OutputReporter::new(test_config(Verbosity::Default, false));
    assert_eq!(
        output.print_startup(),
        "server01: waiting for 3 stable icmp replies every 3s\n"
    );
    assert_eq!(output.print_progress(2, "-", 4), "server01: 2/3\n");
    assert_eq!(output.print_reset(5, "-"), "server01: waiting .");
    assert_eq!(output.dots(), 1);
    assert_eq!(output.print_final_ok(3, "-", 6), "\nserver01: 3/3 ok\n");
    assert_eq!(output.dots(), 0);
    assert_eq!(
        output.print_max_tries(10),
        "server01: max tries reached after 10 attempts\n"
    );
    assert_eq!(output.print_reset(5, "-"), "server01: waiting .");
    assert_eq!(
        output.print_deadline(Duration::from_secs(30)),
        "\nserver01: deadline reached after 30s\n"
    );
    assert_eq!(output.finish_dot_line(), "");
}

#[test]
fn down_mode_startup_waits_for_misses() {
    let output = OutputReporter::new(test_config(Verbosity::Default, true));
    assert_eq!(
        output.print_startup(),
        "server01: waiting for 3 stable misses every 3s\n"
    );
    let mut config = test_config(Verbosity::Verbose, false);
    config.max_tries = Some(10);
    config.timeout = Some(Duration::from_secs(120));
    let mut output = OutputReporter::new(config);
    assert_eq!(
        output.print_startup(),
        "bide: probe=icmp target=server01 addr=192.0.2.1 interval=3s stable=3 max-tries=10 timeout=2m mode=up\n"
    );
    assert_eq!(
        output.print_progress(1, "350us", 9),
        "server01: 1/3 seq=9 rtt=350us\n"
    );
    assert_eq!(
        output.print_final_ok(3, "1.25ms", 11),
        "server01: 3/3 ok seq=11 rtt=1.25ms\n"
    );
    assert_eq!(
        output.print_reset(12, "-"),
        "server01: no response seq=12 rtt=- - streak reset\n"
    );
}
