use freedpi::probe::accumulator::{extract_etld1, Accumulator};
use freedpi::probe::classifier::{Confidence, ProbeVerdict};
use std::time::{Duration, Instant};

#[test]
fn test_extract_etld1() {
    assert_eq!(extract_etld1("sub.example.com"), Some("example.com".into()));
    assert_eq!(extract_etld1("example.com"), Some("example.com".into()));
    assert_eq!(extract_etld1("com"), None);
}

#[test]
fn test_accumulator_record_and_verdict() {
    let mut acc = Accumulator::new(3, 2, Duration::from_secs(86400));

    for _ in 0..5 {
        acc.record("test.com", &ProbeVerdict::Blocked);
    }

    let verdict = acc.get_verdict("test.com");
    assert!(verdict.should_tunnel);
    assert_eq!(verdict.blocked_count, 5);
    assert_eq!(verdict.total_probes, 5);
}

#[test]
fn test_accumulator_family_expansion() {
    let mut acc = Accumulator::new(50, 2, Duration::from_secs(86400));

    acc.record("a.example.com", &ProbeVerdict::Blocked);
    acc.record("b.example.com", &ProbeVerdict::Blocked);

    assert!(acc.should_tunnel("c.example.com"));
}

#[test]
fn test_accumulator_cleanup() {
    let mut acc = Accumulator::new(50, 10, Duration::from_millis(1));
    acc.record("test.com", &ProbeVerdict::Blocked);

    let recorded = Instant::now();
    while recorded.elapsed() < Duration::from_millis(5) {}
    acc.cleanup();

    assert_eq!(acc.hot_count(), 0);
}

#[test]
fn families_are_one_label_below_a_public_suffix() {
    assert_eq!(extract_etld1("news.bbc.co.uk"), Some("bbc.co.uk".into()));
    assert_eq!(extract_etld1("bbc.co.uk"), Some("bbc.co.uk".into()));
    assert_eq!(extract_etld1("a.b.BBC.CO.UK"), Some("BBC.CO.UK".into()));
    assert_eq!(extract_etld1("co.uk"), None);
    assert_eq!(extract_etld1("uk"), None);
    assert_eq!(extract_etld1("x.y.com.ru"), Some("y.com.ru".into()));
    assert_eq!(extract_etld1("www.ya.ru"), Some("ya.ru".into()));
    assert_eq!(extract_etld1("www.co.com"), Some("co.com".into()));
    assert_eq!(extract_etld1("shop.com.au"), Some("shop.com.au".into()));
    assert_eq!(extract_etld1("a.xco.uk"), Some("xco.uk".into()));
    assert_eq!(extract_etld1("a.ac co.uk"), Some("ac co.uk".into()));
    assert_eq!(extract_etld1("a.b.c.d"), Some("c.d".into()));
    assert_eq!(extract_etld1("."), None);
    assert_eq!(extract_etld1("com."), None);
    assert_eq!(extract_etld1(".com"), Some(".com".into()));
    assert_eq!(extract_etld1("example.com."), Some("example.com".into()));
    assert_eq!(extract_etld1("www.example.com."), Some("example.com".into()));
    assert_eq!(extract_etld1("me.github.io"), Some("me.github.io".into()));
    assert_eq!(extract_etld1(""), None);
    assert_eq!(extract_etld1("сайт.рф"), Some("сайт.рф".into()));
    assert_eq!(extract_etld1("www.сайт.рф"), Some("сайт.рф".into()));
}

#[test]
fn nothing_is_known_at_first() {
    let acc = Accumulator::new(3, 2, Duration::from_secs(86400));
    assert_eq!((acc.hot_count(), acc.cache_count(), acc.family_count()), (0, 0, 0));
    let v = acc.get_verdict("test.com");
    assert_eq!(v.domain, "test.com");
    assert!(!v.blocked && !v.should_tunnel && !v.is_family);
    assert_eq!((v.blocked_count, v.total_probes), (0, 0));
    assert_eq!(v.confidence, Confidence { parts: 0, whole: 1 });
}

#[test]
fn four_of_five_blocked_is_enough_for_the_tunnel() {
    let mut acc = Accumulator::new(50, 10, Duration::from_secs(86400));
    acc.record_at("x.com", &ProbeVerdict::Ambiguous, 1);
    for i in 0..3 {
        acc.record_at("x.com", &ProbeVerdict::Blocked, i);
        assert!(!acc.should_tunnel("x.com"));
    }
    acc.record_at("x.com", &ProbeVerdict::Blocked, 9);
    assert!(acc.should_tunnel("x.com"));
    let v = acc.get_verdict("x.com");
    assert!(v.blocked && !v.is_family);
    assert_eq!(v.confidence, Confidence { parts: 4, whole: 5 });
    acc.record_at("x.com", &ProbeVerdict::Ambiguous, 9);
    assert!(!acc.should_tunnel("x.com"));
    assert!(!acc.should_tunnel("y.com"));
    assert_eq!((acc.hot_count(), acc.cache_count(), acc.family_count()), (1, 0, 1));
}

#[test]
fn what_is_blocked_often_is_remembered_for_good() {
    let mut acc = Accumulator::new(50, 10, Duration::from_secs(86400));
    for i in 0..49 {
        acc.record_at("bad.com", &ProbeVerdict::Blocked, i);
    }
    assert_eq!(acc.cache_count(), 0);
    acc.record_at("bad.com", &ProbeVerdict::Blocked, 49);
    assert_eq!(acc.cache_count(), 1);
    acc.cleanup_at(u128::MAX);
    assert_eq!(acc.hot_count(), 0);
    assert!(acc.should_tunnel("bad.com"));
    for i in 0..100 {
        acc.record_at("bad.com", &ProbeVerdict::Ambiguous, i);
    }
    assert!(acc.should_tunnel("bad.com"));
    assert_eq!(acc.get_verdict("bad.com").blocked_count, 0);
}

#[test]
fn fifty_blocks_are_remembered_whatever_else_was_found() {
    let mut acc = Accumulator::new(50, 10, Duration::from_secs(86400));
    for _ in 0..50 {
        acc.record("test.com", &ProbeVerdict::Ambiguous);
    }
    for _ in 0..49 {
        acc.record("test.com", &ProbeVerdict::Blocked);
    }
    assert_eq!(acc.cache_count(), 0);
    assert!(!acc.should_tunnel("test.com"));
    acc.record("test.com", &ProbeVerdict::Blocked);
    assert_eq!(acc.cache_count(), 1);
    assert!(acc.should_tunnel("test.com"));
}

#[test]
fn forty_blocks_of_fifty_probes_are_not_yet_remembered() {
    let mut acc = Accumulator::new(50, 10, Duration::from_secs(86400));
    for i in 0..50 {
        let verdict = if i < 10 {
            ProbeVerdict::Ambiguous
        } else {
            ProbeVerdict::Blocked
        };
        acc.record_at("test.com", &verdict, i);
    }
    assert_eq!(acc.cache_count(), 0);
    // The counts are still reason enough for the tunnel.
    assert!(acc.should_tunnel("test.com"));
    acc.cleanup_at(u128::MAX);
    assert!(!acc.should_tunnel("test.com"));
}

#[test]
fn nothing_is_remembered_before_it_was_blocked() {
    let mut acc = Accumulator::new(0, 10, Duration::from_secs(86400));
    acc.record("test.com", &ProbeVerdict::Ambiguous);
    assert_eq!(acc.cache_count(), 0);
    assert!(!acc.should_tunnel("test.com"));
    acc.record("test.com", &ProbeVerdict::Blocked);
    assert_eq!(acc.cache_count(), 1);
    assert!(acc.should_tunnel("test.com"));
}

#[test]
fn the_whole_family_threshold_counts() {
    let mut acc = Accumulator::new(50, usize::MAX, Duration::from_secs(86400));
    acc.record("a.example.com", &ProbeVerdict::Blocked);
    assert!(!acc.should_tunnel("b.example.com"));
    if usize::BITS > 32 {
        let mut acc = Accumulator::new(50, 1usize << (usize::BITS - 1), Duration::from_secs(1));
        acc.record("a.example.com", &ProbeVerdict::Blocked);
        assert!(!acc.should_tunnel("b.example.com"));
    }
}

#[test]
fn a_domain_counts_once_for_its_family() {
    let mut acc = Accumulator::new(50, 2, Duration::from_secs(86400));
    acc.record("a.example.com", &ProbeVerdict::Blocked);
    acc.record("a.example.com", &ProbeVerdict::Blocked);
    acc.record("b.example.com", &ProbeVerdict::Ambiguous);
    assert!(!acc.should_tunnel("c.example.com"));
    assert_eq!(acc.family_count(), 1);
    acc.record("b.example.com", &ProbeVerdict::Blocked);
    assert!(acc.should_tunnel("example.com"));
    assert!(acc.get_verdict("c.example.com").is_family);
    assert!(!acc.should_tunnel("c.example.org"));
    assert!(!acc.should_tunnel("localhost"));
    acc.record("localhost", &ProbeVerdict::Blocked);
    assert_eq!(acc.family_count(), 1);
    assert_eq!(acc.hot_count(), 3);
}

#[test]
fn a_family_threshold_of_zero_needs_a_known_family() {
    let mut acc = Accumulator::new(50, 0, Duration::from_secs(86400));
    assert!(!acc.should_tunnel("a.example.com"));
    acc.record("b.example.com", &ProbeVerdict::Ambiguous);
    assert!(acc.should_tunnel("a.example.com"));
}

#[test]
fn cleaning_up_keeps_the_fresh_counts() {
    let mut acc = Accumulator::new(50, 10, Duration::from_nanos(100));
    acc.record_at("old.com", &ProbeVerdict::Blocked, 0);
    acc.record_at("new.com", &ProbeVerdict::Blocked, 50);
    acc.cleanup_at(99);
    assert_eq!(acc.hot_count(), 2);
    acc.cleanup_at(100);
    assert_eq!(acc.hot_count(), 1);
    assert_eq!(acc.get_verdict("new.com").total_probes, 1);
    assert_eq!(acc.get_verdict("old.com").total_probes, 0);
    // Later probes do not make the counts younger.
    acc.record_at("new.com", &ProbeVerdict::Blocked, 149);
    acc.cleanup_at(150);
    assert_eq!(acc.hot_count(), 0);
    assert_eq!(acc.family_count(), 2);
}

#[test]
fn the_clock_moves_forward() {
    let mut acc = Accumulator::new(50, 10, Duration::from_secs(86400));
    acc.record("test.com", &ProbeVerdict::Blocked);
    acc.cleanup();
    assert_eq!(acc.hot_count(), 1);
    let mut acc = Accumulator::new(50, 10, Duration::from_secs(0));
    acc.record("test.com", &ProbeVerdict::Blocked);
    acc.cleanup();
    assert_eq!(acc.hot_count(), 0);
}
