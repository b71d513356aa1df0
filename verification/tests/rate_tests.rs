use stream_entropy::rate::{RateDecision, RateTable};

#[test]
fn first_anonymous_request_is_allowed_and_windowed() {
    let mut table = RateTable::new();
    let ip = String::from("203.0.113.9");
    assert_eq!(table.check_and_update(&ip, 1000), RateDecision::Allowed);
    assert_eq!(table.entries.len(), 1);
    assert_eq!(table.entries[0].0, ip);
    assert_eq!(table.entries[0].1, 1030);
}

#[test]
fn second_request_within_window_is_limited() {
    let mut table = RateTable::new();
    let ip = String::from("203.0.113.9");
    assert_eq!(table.check_and_update(&ip, 1000), RateDecision::Allowed);
    let r = table.check_and_update(&ip, 1005);
    assert_eq!(r, RateDecision::Limited { wait_seconds: 25 });
    match r {
        RateDecision::Limited { wait_seconds } => {
            assert!(wait_seconds > 0 && wait_seconds <= 30);
        }
        RateDecision::Allowed => panic!("expected a limited decision"),
    }
}

#[test]
fn request_after_window_expiry_is_allowed_again() {
    let mut table = RateTable::new();
    let ip = String::from("203.0.113.9");
    assert_eq!(table.check_and_update(&ip, 1000), RateDecision::Allowed);
    assert_eq!(table.check_and_update(&ip, 1030), RateDecision::Allowed);
    // The allowed request stood a fresh window.
    assert_eq!(table.entries[0].1, 1060);
}

#[test]
fn distinct_addresses_do_not_share_windows() {
    let mut table = RateTable::new();
    let a = String::from("198.51.100.1");
    let b = String::from("198.51.100.2");
    assert_eq!(table.check_and_update(&a, 500), RateDecision::Allowed);
    assert_eq!(table.check_and_update(&b, 501), RateDecision::Allowed);
    assert_eq!(
        table.check_and_update(&a, 502),
        RateDecision::Limited { wait_seconds: 28 }
    );
    assert_eq!(
        table.check_and_update(&b, 502),
        RateDecision::Limited { wait_seconds: 29 }
    );
}

#[test]
fn wait_time_of_one_second_window_edge() {
    let mut table = RateTable::new();
    let ip = String::from("192.0.2.4");
    assert_eq!(table.check_and_update(&ip, 0), RateDecision::Allowed);
    assert_eq!(
        table.check_and_update(&ip, 29),
        RateDecision::Limited { wait_seconds: 1 }
    );
    assert_eq!(table.check_and_update(&ip, 30), RateDecision::Allowed);
}
