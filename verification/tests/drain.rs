use std::time::Duration;
use timed_set::{Iter, TimedSet};

fn drain_at(it: &mut Iter<'_, u64>, now: u128) -> Vec<u64> {
    let mut out = Vec::new();
    while let Some(v) = it.next_at(now) {
        out.push(v);
    }
    out.sort();
    out
}

#[test]
fn drain_of_an_empty_set_yields_nothing() {
    let mut ts: TimedSet<u64> = TimedSet::new(Duration::from_secs(1));
    let mut it = ts.iter();
    assert_eq!(it.next_at(0), None);
    assert_eq!(it.next_at(0), None);
    assert_eq!(it.next(), None);
}

#[test]
fn drain_yields_each_member_once_and_empties_the_set() {
    let mut ts = TimedSet::new(Duration::from_nanos(100));
    for v in 0..50u64 {
        ts.add_at(v, v as u128);
    }
    let mut it = ts.iter();
    let got = drain_at(&mut it, 60);
    assert_eq!(got, (0..50u64).collect::<Vec<u64>>());
    assert_eq!(it.next_at(60), None);
    for v in 0..50u64 {
        assert!(!ts.contains_at(&v, 0));
        assert!(!ts.contains_at(&v, 60));
    }
}

#[test]
fn drain_yields_members_only_and_removes_the_expired_too() {
    let mut ts = TimedSet::new(Duration::from_nanos(0));
    for v in 0..20u64 {
        // element v lives until the instant v
        ts.add_with_ttl_at(v, Duration::from_nanos(v), 0);
    }
    let mut it = ts.iter();
    let got = drain_at(&mut it, 12);
    assert_eq!(got, (13..20u64).collect::<Vec<u64>>());
    // the expired are gone as well: an instant before their deadlines finds none
    for v in 0..20u64 {
        assert!(!ts.contains_at(&v, 0));
    }
}

#[test]
fn drain_of_expired_elements_yields_nothing_and_empties_the_set() {
    let mut ts = TimedSet::new(Duration::from_nanos(10));
    ts.add_at(1u64, 0);
    ts.add_at(2u64, 5);
    assert!(ts.contains_at(&2, 14));
    let mut it = ts.iter();
    assert_eq!(it.next_at(15), None);
    assert!(!ts.contains_at(&1, 0));
    assert!(!ts.contains_at(&2, 14));
}

#[test]
fn a_step_stops_at_the_first_member() {
    let mut ts = TimedSet::new(Duration::from_nanos(100));
    ts.add_at(1u64, 0);
    ts.add_at(2u64, 0);
    ts.add_at(3u64, 0);
    let mut it = ts.iter();
    let first = it.next_at(10).unwrap();
    assert!(first == 1 || first == 2 || first == 3);
    // the two that were not visited are still stored
    let mut left = 0;
    for v in 1..4u64 {
        if ts.contains_at(&v, 10) {
            assert!(v != first);
            left += 1;
        }
    }
    assert_eq!(left, 2);
}

#[test]
fn each_step_judges_by_its_own_instant() {
    let mut ts = TimedSet::new(Duration::from_nanos(0));
    ts.add_with_ttl_at(1u64, Duration::from_nanos(10), 0);
    ts.add_with_ttl_at(2u64, Duration::from_nanos(20), 0);
    ts.add_with_ttl_at(3u64, Duration::from_nanos(30), 0);
    let mut it = ts.iter();
    // at 5 all three are members: the step yields one of them
    let first = it.next_at(5).unwrap();
    // at 25 only element 3 can be a member
    let second = it.next_at(25);
    if first == 3 {
        assert_eq!(second, None);
    } else {
        assert_eq!(second, Some(3));
    }
    assert_eq!(it.next_at(25), None);
    for v in 1..4u64 {
        assert!(!ts.contains_at(&v, 0));
    }
}

#[test]
fn the_set_can_be_filled_again_after_a_drain() {
    let mut ts = TimedSet::new(Duration::from_nanos(10));
    ts.add_at("a", 0);
    let mut it = ts.iter();
    assert_eq!(it.next_at(1), Some("a"));
    assert_eq!(it.next_at(1), None);
    ts.add_at("a", 100);
    ts.add_at("b", 100);
    assert!(ts.contains_at(&"a", 105));
    let mut it = ts.iter();
    let mut got = Vec::new();
    while let Some(v) = it.next_at(105) {
        got.push(v);
    }
    got.sort();
    assert_eq!(got, vec!["a", "b"]);
}

#[test]
fn drain_yields_an_element_whose_deadline_lies_beyond_the_last_instant() {
    let mut ts = TimedSet::new(Duration::from_secs(1));
    ts.add_at(9u64, u128::MAX);
    let mut it = ts.iter();
    assert_eq!(it.next_at(u128::MAX), Some(9));
    assert_eq!(it.next_at(u128::MAX), None);
}
