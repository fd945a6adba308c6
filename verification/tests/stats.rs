use pingultra::address::IpAddress;
use pingultra::error::PingError;
use pingultra::host::{PingResponse, PingTarget};
use pingultra::stats::{PingStats, FULL_LOSS, MAX_RTT_NANOS};

fn target() -> PingTarget {
    PingTarget::new("host".to_string(), IpAddress::from_octets(10, 0, 0, 1))
}

#[test]
fn new_stats_are_empty() {
    let stats = PingStats::new();
    assert_eq!(stats.sent, 0);
    assert_eq!(stats.received, 0);
    assert_eq!(stats.min_rtt, None);
    assert_eq!(stats.max_rtt, None);
    assert_eq!(stats.sum_rtt, 0);
    assert_eq!(stats.last_seq, 0);
    assert_eq!(stats.avg_rtt(), None);
    assert_eq!(stats.loss_percent(), 0);
}

#[test]
fn success_counts_and_tracks_extrema() {
    let mut stats = PingStats::new();
    stats.update_with_success(0, 20_000_000);
    assert_eq!((stats.sent, stats.received), (1, 1));
    assert_eq!(stats.min_rtt, Some(20_000_000));
    assert_eq!(stats.max_rtt, Some(20_000_000));
    stats.update_with_success(1, 10_000_000);
    stats.update_with_success(2, 60_000_000);
    assert_eq!((stats.sent, stats.received), (3, 3));
    assert_eq!(stats.min_rtt, Some(10_000_000));
    assert_eq!(stats.max_rtt, Some(60_000_000));
    assert_eq!(stats.sum_rtt, 90_000_000);
    assert_eq!(stats.last_seq, 2);
    assert_eq!(stats.avg_rtt(), Some(30_000_000));
    assert_eq!(stats.loss_percent(), 0);
}

#[test]
fn failure_counts_as_sent_only() {
    let mut stats = PingStats::new();
    stats.update_with_failure(4);
    assert_eq!((stats.sent, stats.received), (1, 0));
    assert_eq!(stats.last_seq, 4);
    assert_eq!(stats.min_rtt, None);
    assert_eq!(stats.max_rtt, None);
    assert_eq!(stats.avg_rtt(), None);
    assert_eq!(stats.loss_percent(), FULL_LOSS);
}

#[test]
fn loss_is_in_thousandths_of_a_percent() {
    let mut stats = PingStats::new();
    stats.update_with_success(0, 1);
    stats.update_with_failure(1);
    stats.update_with_success(2, 1);
    assert_eq!(stats.loss_percent(), 33_333);
    stats.update_with_failure(3);
    assert_eq!(stats.loss_percent(), 50_000);
}

#[test]
fn average_rounds_down() {
    let mut stats = PingStats::new();
    stats.update_with_success(0, 1);
    stats.update_with_success(1, 2);
    assert_eq!(stats.avg_rtt(), Some(1));
}

#[test]
fn longest_round_trip_can_be_recorded() {
    let mut stats = PingStats::new();
    stats.update_with_success(0, MAX_RTT_NANOS);
    stats.update_with_success(1, MAX_RTT_NANOS);
    assert_eq!(stats.sum_rtt, 2 * MAX_RTT_NANOS);
    assert_eq!(stats.avg_rtt(), Some(MAX_RTT_NANOS));
}

#[test]
fn laws_hold_over_a_run_of_outcomes() {
    let rtts: [Option<u128>; 9] =
        [None, Some(5), Some(900), None, None, Some(17), Some(3), None, Some(44)];
    let mut stats = PingStats::new();
    let mut successes = 0u32;
    let mut failures = 0u32;
    for (seq, rtt) in rtts.iter().enumerate() {
        let outcome = match rtt {
            Some(rtt) => PingResponse::success(target(), seq as u16, *rtt, 64, 64),
            None => PingResponse::failure(target(), seq as u16, 56, 64, PingError::Timeout),
        };
        if outcome.is_success() {
            successes += 1;
        } else {
            failures += 1;
        }
        stats.record(&outcome);
        assert_eq!(stats.sent, successes + failures);
        assert_eq!(stats.received, successes);
        assert!(stats.loss_percent() <= FULL_LOSS);
        if stats.received == 0 {
            assert_eq!(stats.avg_rtt(), None);
            assert_eq!(stats.min_rtt, None);
            assert_eq!(stats.max_rtt, None);
        } else {
            let avg = stats.avg_rtt().expect("received something");
            assert!(stats.min_rtt.expect("min") <= avg);
            assert!(avg <= stats.max_rtt.expect("max"));
        }
    }
    assert_eq!((stats.sent, stats.received), (9, 5));
    assert_eq!(stats.min_rtt, Some(3));
    assert_eq!(stats.max_rtt, Some(900));
    assert_eq!(stats.avg_rtt(), Some(193));
    assert_eq!(stats.loss_percent(), 44_444);
}

#[test]
fn response_constructors_are_exclusive() {
    let ok = PingResponse::success(target(), 1, 1000, 64, 55);
    assert!(ok.is_success());
    assert_eq!(ok.rtt, Some(1000));
    assert!(ok.error.is_none());
    assert_eq!((ok.seq, ok.bytes, ok.ttl), (1, 64, 55));
    assert_eq!(ok.target.name, "host");
    let bad = PingResponse::failure(target(), 2, 56, 64, PingError::Timeout);
    assert!(!bad.is_success());
    assert_eq!(bad.rtt, None);
    assert!(matches!(bad.error, Some(PingError::Timeout)));
    assert_eq!((bad.seq, bad.bytes, bad.ttl), (2, 56, 64));
}
