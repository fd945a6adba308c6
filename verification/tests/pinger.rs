use pingultra::address::IpAddress;
use pingultra::error::PingError;
use pingultra::host::{PingResponse, PingTarget};
use pingultra::icmp::IcmpEchoRequest;
use pingultra::pinger::{socket_error, Pinger, Probe, ProbeAction, ProbeEvent, ProbePhase};

fn pinger(size: usize) -> Pinger {
    let target = PingTarget::new("router".to_string(), IpAddress::from_octets(192, 168, 1, 1));
    Pinger::with_identifier(target, size, 64, 0x4242)
}

fn reply_datagram(identifier: u16, sequence: u16, ttl: u8, size: usize) -> Vec<u8> {
    let mut echo = vec![0u8; size];
    IcmpEchoRequest::new(identifier, sequence, size).create_packet(&mut echo).expect("fits");
    echo[0] = 0;
    let mut datagram = vec![0u8; 20];
    datagram[0] = 0x45;
    datagram[8] = ttl;
    datagram[9] = 1;
    datagram.extend(echo);
    datagram
}

fn finished(action: ProbeAction) -> PingResponse {
    match action {
        ProbeAction::Finish(outcome) => outcome,
        other => panic!("the probe goes on with {:?}", other),
    }
}

fn sent_probe(pinger: &Pinger, seq: u16, timeout_ms: u64) -> Probe {
    let (mut probe, action) = pinger.start_probe(seq, timeout_ms);
    assert!(matches!(action, ProbeAction::Send(_)));
    assert!(matches!(pinger.step(&mut probe, ProbeEvent::Sent), ProbeAction::ReadClock));
    probe
}

#[test]
fn new_prober_keeps_its_settings() {
    let target = PingTarget::new("a".to_string(), IpAddress::V4(1));
    let pinger = Pinger::new(target, 56, 64);
    assert_eq!(pinger.size, 56);
    assert_eq!(pinger.ttl, 64);
    assert_eq!(pinger.target.name, "a");
    assert_eq!(pinger.target.addr, IpAddress::V4(1));
}

#[test]
fn identifiers_are_drawn_afresh() {
    let mut seen = std::collections::HashSet::new();
    for _ in 0..64 {
        let target = PingTarget::new("a".to_string(), IpAddress::V4(1));
        seen.insert(Pinger::new(target, 56, 64).identifier);
    }
    assert!(seen.len() > 1);
}

#[test]
fn socket_errors_are_told_apart() {
    assert!(matches!(socket_error(true, "denied".to_string()), PingError::PermissionDenied));
    match socket_error(false, "no buffer space".to_string()) {
        PingError::SendError(message) => assert_eq!(message, "no buffer space"),
        other => panic!("unexpected {:?}", other),
    }
}

#[test]
fn probe_starts_by_sending_the_request() {
    let pinger = pinger(56);
    let (probe, action) = pinger.start_probe(7, 5000);
    assert_eq!(probe, Probe { seq: 7, timeout_ms: 5000, phase: ProbePhase::Sending });
    let mut expected = vec![0u8; 56];
    IcmpEchoRequest::new(0x4242, 7, 56).create_packet(&mut expected).expect("fits");
    match action {
        ProbeAction::Send(packet) => assert_eq!(packet, expected),
        other => panic!("unexpected {:?}", other),
    }
}

#[test]
fn misconfigured_size_fails_construction() {
    for size in [0usize, 7, 65536, 1 << 20] {
        let pinger = pinger(size);
        let (probe, action) = pinger.start_probe(3, 1000);
        assert_eq!(probe.phase, ProbePhase::Finished);
        let outcome = finished(action);
        assert!(matches!(outcome.error, Some(PingError::PacketConstructionError)));
        assert_eq!(outcome.rtt, None);
        assert_eq!((outcome.seq, outcome.bytes, outcome.ttl), (3, size, 64));
    }
    for size in [8usize, 65535] {
        let (probe, _) = pinger(size).start_probe(3, 1000);
        assert_eq!(probe.phase, ProbePhase::Sending);
    }
}

#[test]
fn send_failure_is_a_send_error() {
    let pinger = pinger(56);
    let (mut probe, _) = pinger.start_probe(1, 1000);
    let outcome = finished(pinger.step(&mut probe, ProbeEvent::SendFailed("unreachable".to_string())));
    assert_eq!(probe.phase, ProbePhase::Finished);
    match outcome.error {
        Some(PingError::SendError(message)) => assert_eq!(message, "unreachable"),
        other => panic!("unexpected {:?}", other),
    }
    assert_eq!((outcome.seq, outcome.bytes, outcome.ttl), (1, 56, 64));
}

#[test]
fn matching_reply_is_a_success() {
    let pinger = pinger(56);
    let mut probe = sent_probe(&pinger, 9, 1000);
    assert!(matches!(pinger.step(&mut probe, ProbeEvent::Clock(10)), ProbeAction::Receive));
    let datagram = reply_datagram(0x4242, 9, 57, 56);
    let outcome = finished(pinger.step(&mut probe, ProbeEvent::Datagram(datagram, 2_345_678)));
    assert_eq!(probe.phase, ProbePhase::Finished);
    assert!(outcome.is_success());
    assert_eq!(outcome.rtt, Some(2_345_678));
    assert_eq!((outcome.seq, outcome.bytes, outcome.ttl), (9, 56, 57));
    assert_eq!(outcome.target.name, "router");
}

#[test]
fn foreign_replies_keep_the_probe_waiting() {
    let pinger = pinger(56);
    let mut probe = sent_probe(&pinger, 9, 1000);
    let foreign = [
        reply_datagram(0x4243, 9, 64, 56),
        reply_datagram(0x4242, 10, 64, 56),
        vec![0u8; 5],
        Vec::new(),
    ];
    for datagram in foreign {
        assert!(matches!(pinger.step(&mut probe, ProbeEvent::Clock(1)), ProbeAction::Receive));
        assert!(matches!(
            pinger.step(&mut probe, ProbeEvent::Datagram(datagram, 5)),
            ProbeAction::Sleep(1)
        ));
        assert_eq!(probe.phase, ProbePhase::Pausing);
        assert!(matches!(pinger.step(&mut probe, ProbeEvent::Slept), ProbeAction::ReadClock));
    }
    assert!(matches!(pinger.step(&mut probe, ProbeEvent::Clock(1)), ProbeAction::Receive));
    assert!(matches!(pinger.step(&mut probe, ProbeEvent::WouldBlock), ProbeAction::Sleep(1)));
}

#[test]
fn non_control_datagram_is_ignored() {
    let pinger = pinger(56);
    let mut datagram = reply_datagram(0x4242, 9, 64, 56);
    datagram[9] = 17;
    assert!(pinger.match_reply(9, &datagram, 1).is_none());
    datagram[9] = 1;
    assert!(pinger.match_reply(9, &datagram, 1).is_some());
}

#[test]
fn header_length_decides_where_the_reply_starts() {
    let pinger = pinger(16);
    let mut echo = vec![0u8; 16];
    IcmpEchoRequest::new(0x4242, 2, 16).create_packet(&mut echo).expect("fits");
    echo[0] = 0;
    let mut datagram = vec![0u8; 24];
    datagram[0] = 0x46;
    datagram[8] = 33;
    datagram[9] = 1;
    datagram.extend(echo);
    let outcome = pinger.match_reply(2, &datagram, 77).expect("matches");
    assert_eq!((outcome.bytes, outcome.ttl, outcome.rtt), (16, 33, Some(77)));
    datagram[0] = 0x45;
    assert!(pinger.match_reply(2, &datagram, 77).is_none());
}

#[test]
fn deadline_turns_into_a_timeout() {
    let pinger = pinger(56);
    let mut probe = sent_probe(&pinger, 4, 500);
    assert!(matches!(pinger.step(&mut probe, ProbeEvent::Clock(499_999_999)), ProbeAction::Receive));
    assert!(matches!(pinger.step(&mut probe, ProbeEvent::WouldBlock), ProbeAction::Sleep(1)));
    assert!(matches!(pinger.step(&mut probe, ProbeEvent::Slept), ProbeAction::ReadClock));
    let outcome = finished(pinger.step(&mut probe, ProbeEvent::Clock(500_000_000)));
    assert!(matches!(outcome.error, Some(PingError::Timeout)));
    assert_eq!(outcome.rtt, None);
    assert_eq!((outcome.seq, outcome.bytes, outcome.ttl), (4, 56, 64));
    assert_eq!(probe.phase, ProbePhase::Finished);
}

#[test]
fn zero_timeout_times_out_at_once() {
    let pinger = pinger(56);
    let mut probe = sent_probe(&pinger, 4, 0);
    let outcome = finished(pinger.step(&mut probe, ProbeEvent::Clock(0)));
    assert!(matches!(outcome.error, Some(PingError::Timeout)));
}

#[test]
fn receive_failure_is_no_send_error() {
    let pinger = pinger(56);
    let mut probe = sent_probe(&pinger, 4, 500);
    assert!(matches!(pinger.step(&mut probe, ProbeEvent::Clock(0)), ProbeAction::Receive));
    let outcome = finished(pinger.step(&mut probe, ProbeEvent::ReceiveFailed("reset".to_string())));
    assert_eq!(probe.phase, ProbePhase::Finished);
    assert_eq!(outcome.rtt, None);
    assert_eq!((outcome.seq, outcome.bytes, outcome.ttl), (4, 56, 64));
    match outcome.error {
        Some(PingError::Other(message)) => assert_eq!(message, "reset"),
        other => panic!("unexpected {:?}", other),
    }
}

#[test]
fn unexpected_event_ends_the_probe() {
    let pinger = pinger(56);
    let (mut probe, _) = pinger.start_probe(1, 1000);
    let outcome = finished(pinger.step(&mut probe, ProbeEvent::Slept));
    assert_eq!(probe.phase, ProbePhase::Finished);
    match outcome.error {
        Some(PingError::Other(message)) => assert_eq!(message, "unexpected probe event"),
        other => panic!("unexpected {:?}", other),
    }
    let outcome = finished(pinger.step(&mut probe, ProbeEvent::Sent));
    assert!(matches!(outcome.error, Some(PingError::Other(_))));
}

#[test]
fn reported_ttl_is_the_low_octet() {
    let target = PingTarget::new("a".to_string(), IpAddress::V4(1));
    let pinger = Pinger::with_identifier(target, 56, 300, 1);
    let mut probe = sent_probe(&pinger, 0, 0);
    let outcome = finished(pinger.step(&mut probe, ProbeEvent::Clock(1)));
    assert_eq!(outcome.ttl, 44);
}
