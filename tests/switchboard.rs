use proxy_switchboard::endpoint::IpAddress;
use proxy_switchboard::switchboard::{Exhausted, Switchboard};

fn ip(a: u8, b: u8, c: u8, d: u8) -> IpAddress {
    IpAddress::V4(a, b, c, d)
}

#[test]
fn reserve_then_match_returns_session() {
    let mut board = Switchboard::new(40123, 40200, 60);
    let source = ip(10, 0, 0, 5);
    assert_eq!(board.reserve(7, source, 1000), Ok(40123));
    assert_eq!(board.lookup(source, 40123, 1010), Some(7));
}

#[test]
fn lookup_from_other_source_misses() {
    let mut board = Switchboard::new(40123, 40200, 60);
    assert_eq!(board.reserve(7, ip(10, 0, 0, 5), 1000), Ok(40123));
    assert_eq!(board.lookup(ip(10, 0, 0, 6), 40123, 1010), None);
    assert_eq!(board.lookup(ip(10, 0, 0, 5), 40124, 1010), None);
}

#[test]
fn distinct_ports_until_exhausted() {
    let mut board = Switchboard::new(5000, 5002, 100);
    let a = board.reserve(1, ip(10, 0, 0, 1), 10).unwrap();
    let b = board.reserve(2, ip(10, 0, 0, 2), 11).unwrap();
    let c = board.reserve(3, ip(10, 0, 0, 3), 12).unwrap();
    assert_ne!(a, b);
    assert_ne!(b, c);
    assert_ne!(a, c);
    assert_eq!((a, b, c), (5000, 5001, 5002));
    assert_eq!(board.reserve(4, ip(10, 0, 0, 4), 13), Err(Exhausted));
}

#[test]
fn expired_reservation_is_unmatched_and_reusable() {
    let mut board = Switchboard::new(5000, 5000, 30);
    let source = ip(192, 168, 1, 2);
    assert_eq!(board.reserve(1, source, 100), Ok(5000));
    assert_eq!(board.lookup(source, 5000, 129), Some(1));
    assert_eq!(board.lookup(source, 5000, 130), None);
    assert_eq!(board.reserve(2, ip(192, 168, 1, 3), 130), Ok(5000));
    assert_eq!(board.lookup(ip(192, 168, 1, 3), 5000, 131), Some(2));
}

#[test]
fn not_yet_expired_reservation_blocks_port() {
    let mut board = Switchboard::new(5000, 5000, 30);
    assert_eq!(board.reserve(1, ip(1, 2, 3, 4), 100), Ok(5000));
    assert_eq!(board.reserve(2, ip(1, 2, 3, 5), 129), Err(Exhausted));
}

#[test]
fn released_port_is_reusable_at_once() {
    let mut board = Switchboard::new(6000, 6001, 1000);
    let source = ip(10, 1, 1, 1);
    assert_eq!(board.reserve(1, source, 0), Ok(6000));
    assert_eq!(board.reserve(2, ip(10, 1, 1, 2), 0), Ok(6001));
    assert_eq!(board.reserve(3, ip(10, 1, 1, 3), 0), Err(Exhausted));
    board.release(source, 6000);
    assert_eq!(board.lookup(source, 6000, 1), None);
    assert_eq!(board.reserve(3, ip(10, 1, 1, 3), 1), Ok(6000));
}

#[test]
fn release_with_wrong_source_keeps_reservation() {
    let mut board = Switchboard::new(6000, 6001, 1000);
    assert_eq!(board.reserve(1, ip(10, 1, 1, 1), 0), Ok(6000));
    board.release(ip(10, 1, 1, 9), 6000);
    assert_eq!(board.lookup(ip(10, 1, 1, 1), 6000, 1), Some(1));
}

#[test]
fn empty_range_is_exhausted() {
    let mut board = Switchboard::new(7000, 6999, 10);
    assert_eq!(board.reserve(1, ip(1, 1, 1, 1), 0), Err(Exhausted));
}

#[test]
fn top_of_port_space_is_reservable() {
    let mut board = Switchboard::new(65535, 65535, 10);
    assert_eq!(board.reserve(1, ip(1, 1, 1, 1), 0), Ok(65535));
    assert_eq!(board.reserve(2, ip(1, 1, 1, 2), 0), Err(Exhausted));
}

#[test]
fn deadline_saturates_at_the_end_of_time() {
    let mut board = Switchboard::new(100, 100, u64::MAX);
    assert_eq!(board.reserve(1, ip(1, 1, 1, 1), 5), Ok(100));
    assert_eq!(board.lookup(ip(1, 1, 1, 1), 100, u64::MAX - 1), Some(1));
    assert_eq!(board.lookup(ip(1, 1, 1, 1), 100, u64::MAX), None);
}

#[test]
fn range_membership() {
    let board = Switchboard::new(2000, 2010, 10);
    assert!(board.in_range(2000));
    assert!(board.in_range(2010));
    assert!(!board.in_range(1999));
    assert!(!board.in_range(2011));
    assert_eq!((board.first_port(), board.last_port()), (2000, 2010));
}

#[test]
fn release_all_drains_once() {
    let mut board = Switchboard::new(3000, 3001, 100);
    board.reserve(1, ip(1, 1, 1, 1), 0).unwrap();
    board.reserve(2, ip(1, 1, 1, 2), 0).unwrap();
    assert_eq!(board.release_all(), 2);
    assert_eq!(board.release_all(), 0);
    assert_eq!(board.reserve(3, ip(1, 1, 1, 3), 1), Ok(3000));
}
