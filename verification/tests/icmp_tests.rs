use bide::icmp::{
    checksum, classify_open_failure, open_failure, recv_failure, send_failure, AddressFamily,
    wait_too_short, IcmpEcho, RecvEvent, RecvStep, SocketErrorKind,
    ICMPV4_ECHO_REPLY, ICMPV4_ECHO_REQUEST, ICMPV6_ECHO_REPLY, ICMPV6_ECHO_REQUEST,
};
use bide::duration::Duration;
use bide::probe::ProbeError;

#[test]
fn checksum_known_value() {
    // RFC 1071 example: sum of 0x0001, 0xf203, 0xf4f5, 0xf6f7 = one's complement 0x220d.
    let data = [0x00u8, 0x01, 0xf2, 0x03, 0xf4, 0xf5, 0xf6, 0xf7];
    assert_eq!(checksum(&data), 0x220d);
}

#[test]
fn checksum_pads_an_odd_byte_and_folds_carries() {
    assert_eq!(checksum(&[]), 0xffff);
    assert_eq!(checksum(&[0x01]), !0x0100u16);
    assert_eq!(checksum(&[0xff, 0xff, 0x00, 0x01]), !0x0001u16);
}

#[test]
fn checksum_sums_without_wrapping() {
    // 65538 words of 0xFFFF: their one's-complement sum is 0xFFFF, whose complement is 0.
    assert_eq!(checksum(&[0xFFu8; 131076]), 0);
    assert_eq!(checksum(&[0xFFu8; 131078]), 0);
}

#[test]
fn echo_request_has_correct_type_v4() {
    let p = IcmpEcho {
        family: AddressFamily::V4,
        ident: 0x1234,
    };
    let pkt = p.build_echo_request(7);
    assert_eq!(pkt[0], ICMPV4_ECHO_REQUEST);
    assert_eq!(pkt[1], 0);
    assert_eq!(u16::from_be_bytes([pkt[4], pkt[5]]), 0x1234);
    assert_eq!(u16::from_be_bytes([pkt[6], pkt[7]]), 7);
}

#[test]
fn echo_request_v4_checks_to_zero() {
    let p = IcmpEcho {
        family: AddressFamily::V4,
        ident: 0xbeef,
    };
    for seq in [0u16, 1, 7, 0x1234, 0xffff] {
        let pkt = p.build_echo_request(seq);
        assert_eq!(checksum(&pkt), 0);
        assert_eq!(&pkt[8..16], b"bidebide");
        assert_ne!(u16::from_be_bytes([pkt[2], pkt[3]]), 0);
    }
}

#[test]
fn echo_request_v6_leaves_checksum_to_kernel() {
    let p = IcmpEcho {
        family: AddressFamily::V6,
        ident: 0x1234,
    };
    let pkt = p.build_echo_request(0x0102);
    assert_eq!(pkt[0], ICMPV6_ECHO_REQUEST);
    assert_eq!(pkt[2], 0);
    assert_eq!(pkt[3], 0);
    assert_eq!(pkt[6], 1);
    assert_eq!(pkt[7], 2);
}

#[test]
fn replies_match_their_request_only() {
    for (family, reply_type) in [
        (AddressFamily::V4, ICMPV4_ECHO_REPLY),
        (AddressFamily::V6, ICMPV6_ECHO_REPLY),
    ] {
        let p = IcmpEcho { family, ident: 1 };
        let pkt = p.build_echo_request(42);
        // Our own request looped back is not a reply.
        assert!(!p.is_matching_reply(&pkt, 42));
        let mut reply = pkt;
        reply[0] = reply_type;
        // The kernel may rewrite the identifier.
        reply[4] = 9;
        assert!(p.is_matching_reply(&reply, 42));
        assert!(!p.is_matching_reply(&reply, 43));
        assert!(!p.is_matching_reply(&reply[..7], 42));
    }
}

#[test]
fn recv_events_decide_the_probe() {
    let p = IcmpEcho {
        family: AddressFamily::V4,
        ident: 1,
    };
    let mut reply = p.build_echo_request(5).to_vec();
    reply[0] = ICMPV4_ECHO_REPLY;
    assert!(matches!(p.on_recv(5, RecvEvent::Packet(reply.clone())), RecvStep::Reply));
    assert!(matches!(p.on_recv(6, RecvEvent::Packet(reply)), RecvStep::KeepWaiting));
    assert!(matches!(p.on_recv(5, RecvEvent::Quiet), RecvStep::NoResponse));
    assert!(matches!(p.on_recv(5, RecvEvent::DeadlinePassed), RecvStep::NoResponse));
    match p.on_recv(5, RecvEvent::Failed("boom".to_string())) {
        RecvStep::Fatal(e) => assert_eq!(e.message, "recv failed: boom"),
        _ => panic!("expected a fatal error"),
    }
    match p.on_recv(5, RecvEvent::TimeoutNotSet("bad".to_string())) {
        RecvStep::Fatal(e) => assert_eq!(e.message, "setsockopt(SO_RCVTIMEO): bad"),
        _ => panic!("expected a fatal error"),
    }
    assert_eq!(ProbeError::send_failed("x").message, "send failed: x");
}

#[test]
fn socket_open_errors_explain_permissions() {
    let e = classify_open_failure(Some(13), 13, 1, "Permission denied (os error 13)");
    assert_eq!(
        e.message,
        "unable to open unprivileged ICMP socket (Permission denied (os error 13)). On Linux, either widen `sysctl net.ipv4.ping_group_range` to include your GID, or grant CAP_NET_RAW via `sudo setcap cap_net_raw+ep <binary>`."
    );
    let e = classify_open_failure(Some(1), 13, 1, "x");
    assert!(e.message.starts_with("unable to open unprivileged ICMP socket (x)."));
    let e = classify_open_failure(Some(24), 13, 1, "too many files");
    assert_eq!(e.message, "failed to open ICMP socket: too many files");
    let e = open_failure(None, "gone");
    assert_eq!(e.message, "failed to open ICMP socket: gone");
    let e = open_failure(Some(libc::EACCES), "denied");
    assert!(e.message.starts_with("unable to open unprivileged ICMP socket (denied)."));
    let e = open_failure(Some(libc::EPERM), "denied");
    assert!(e.message.starts_with("unable to open unprivileged ICMP socket (denied)."));
}

#[test]
fn unreachable_targets_are_no_response() {
    for kind in [
        SocketErrorKind::WouldBlock,
        SocketErrorKind::TimedOut,
        SocketErrorKind::Interrupted,
        SocketErrorKind::HostUnreachable,
        SocketErrorKind::NetworkUnreachable,
    ] {
        assert!(matches!(recv_failure(kind, "x".to_string()), RecvEvent::Quiet));
        assert!(matches!(send_failure(kind, "x"), Ok(bide::probe::ProbeOutcome::NoResponse)));
    }
    match recv_failure(SocketErrorKind::Other, "bad fd".to_string()) {
        RecvEvent::Failed(d) => assert_eq!(d, "bad fd"),
        _ => panic!("expected a failure"),
    }
    match send_failure(SocketErrorKind::Other, "bad fd") {
        Err(e) => assert_eq!(e.message, "send failed: bad fd"),
        _ => panic!("expected a failure"),
    }
}

#[test]
fn sub_microsecond_waits_count_as_passed() {
    assert!(wait_too_short(Duration::zero()));
    assert!(wait_too_short(Duration::new(0, 999)));
    assert!(!wait_too_short(Duration::new(0, 1000)));
    assert!(!wait_too_short(Duration::from_secs(1)));
}
