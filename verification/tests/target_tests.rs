use bide::clock::fits_in_instant_clock;
use bide::duration::Duration;
use bide::target::{normalize_host, parse_target, parse_url_host};
use std::time::Instant;

#[test]
fn parses_plain_target_as_icmp() {
    let t = parse_target("server01").unwrap();
    assert_eq!(t.host(), "server01");
    assert_eq!(t.label(), "server01");
}

#[test]
fn parses_explicit_icmp_target() {
    let t = parse_target("icmp://server01").unwrap();
    assert_eq!(t.host(), "server01");
    assert_eq!(t.label(), "server01");
}

#[test]
fn strips_brackets_from_ipv6_host() {
    let t = parse_target("icmp://[::1]").unwrap();
    assert_eq!(t.host(), "::1");
}

#[test]
fn rejects_unsupported_target_schemes() {
    assert!(parse_target("tcp://server01:22").is_err());
    assert!(parse_target("http://server01/healthz").is_err());
    assert!(parse_target("ftp://server01").is_err());
}

#[test]
fn rejects_malformed_targets() {
    assert!(parse_target("").is_err());
    assert!(parse_target("icmp://").is_err());
    assert!(parse_target("icmp://server01/path").is_err());
    assert!(parse_target("icmp://server01:22").is_err());
    assert!(parse_target("icmp://[::1]:22").is_err());
    assert!(parse_target("icmp://[::1").is_err());
}

#[test]
fn rejects_durations_that_do_not_fit_in_instant_clock() {
    assert!(!fits_in_instant_clock(
        Instant::now(),
        Duration::from_secs(u64::MAX)
    ));
}

#[test]
fn an_empty_span_always_fits_in_the_clock() {
    assert!(fits_in_instant_clock(Instant::now(), Duration::zero()));
    assert!(fits_in_instant_clock(Instant::now(), Duration::from_secs(3)));
}

#[test]
fn target_errors_carry_their_messages() {
    assert_eq!(parse_target("").unwrap_err(), "target cannot be empty");
    assert_eq!(
        parse_target("TCP://server01:22").unwrap_err(),
        "tcp:// targets are reserved for a future probe backend and are not implemented yet"
    );
    assert_eq!(
        parse_target("https://server01/healthz").unwrap_err(),
        "https:// targets are reserved for a future probe backend and are not implemented yet"
    );
    assert_eq!(
        parse_target("Ftp://server01").unwrap_err(),
        "unsupported target scheme 'ftp'; use a plain host or icmp://host"
    );
    assert_eq!(parse_target("icmp://").unwrap_err(), "target URL is missing a host");
    assert_eq!(
        parse_target("icmp://server01?x").unwrap_err(),
        "icmp:// targets must not include a path, query, or fragment"
    );
    assert_eq!(
        parse_target("icmp://[::1]:22").unwrap_err(),
        "icmp:// IPv6 targets must be bracketed and must not include a port"
    );
    assert_eq!(
        parse_target("icmp://server01:22").unwrap_err(),
        "icmp:// targets must not include a port; use tcp:// for TCP probes when that backend is available"
    );
    assert_eq!(parse_target("[]").unwrap_err(), "target host cannot be empty");
    assert_eq!(parse_target("icmp://[]").unwrap_err(), "target host cannot be empty");
    assert_eq!(parse_target("[::1").unwrap_err(), "IPv6 target brackets are malformed");
    assert_eq!(parse_target("::1]").unwrap_err(), "IPv6 target brackets are malformed");
}

#[test]
fn plain_targets_keep_their_label() {
    let t = parse_target("[2001:db8::10]").unwrap();
    assert_eq!(t.host(), "2001:db8::10");
    assert_eq!(t.label(), "[2001:db8::10]");
    let t = parse_target("ICMP://[2001:db8::10]").unwrap();
    assert_eq!(t.host(), "2001:db8::10");
    assert_eq!(t.label(), "2001:db8::10");
    let t = parse_target("192.168.10.10").unwrap();
    assert_eq!(t.host(), "192.168.10.10");
    // Only the first "://" separates the scheme.
    assert!(parse_target("icmp://a://b").is_err());
}

#[test]
fn host_helpers_match_the_target_rules() {
    assert_eq!(normalize_host("[fe80::1]").unwrap(), "fe80::1");
    assert_eq!(normalize_host("host").unwrap(), "host");
    assert!(normalize_host("").is_err());
    assert_eq!(parse_url_host("host").unwrap(), "host");
    assert!(parse_url_host("host#frag").is_err());
}
