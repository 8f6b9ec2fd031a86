use datavfs::throttle::{size_from, Throttle, ThrottleError};
use std::str::FromStr;

#[test]
fn throttle_reads_bandwidth_and_burst() {
    let t = Throttle::from_str("10kiB,10MB").unwrap();
    assert_eq!(t, Throttle { bandwidth: 10 * 1024, burst: 10_000_000 });
}

#[test]
fn throttle_trims_pieces() {
    let t = Throttle::parse(" 1kB ,\t2 KiB ").unwrap();
    assert_eq!(t, Throttle { bandwidth: 1000, burst: 2048 });
}

#[test]
fn throttle_plain_numbers_are_bytes() {
    assert_eq!(Throttle::parse("100,200"), Ok(Throttle { bandwidth: 100, burst: 200 }));
}

#[test]
fn throttle_ignores_third_piece() {
    assert_eq!(Throttle::parse("1,2,nonsense"), Ok(Throttle { bandwidth: 1, burst: 2 }));
}

#[test]
fn throttle_without_burst() {
    assert_eq!(Throttle::parse("10MB"), Err(ThrottleError::NoBurst));
}

#[test]
fn throttle_bad_size() {
    match Throttle::parse("ten,10MB") {
        Err(ThrottleError::InvalidSize(m)) => assert!(m.contains("couldn't parse")),
        other => panic!("unexpected {:?}", other),
    }
    match Throttle::parse("10MB,lots") {
        Err(ThrottleError::InvalidSize(_)) => {}
        other => panic!("unexpected {:?}", other),
    }
}

#[test]
fn throttle_bad_first_piece_wins_over_missing_burst() {
    assert!(matches!(Throttle::parse("nope"), Err(ThrottleError::InvalidSize(_))));
}

#[test]
fn throttle_too_large() {
    assert_eq!(Throttle::parse("5GB,1"), Err(ThrottleError::OutOfRange));
    assert_eq!(Throttle::parse("1,4294967296"), Err(ThrottleError::OutOfRange));
    assert_eq!(Throttle::parse("4294967295,1"), Ok(Throttle { bandwidth: u32::MAX, burst: 1 }));
}

#[test]
fn throttle_setters() {
    let t = Throttle { bandwidth: 1, burst: 2 }.bandwidth(5).burst(6);
    assert_eq!(t, Throttle { bandwidth: 5, burst: 6 });
}

#[test]
fn throttle_reads_back_formatted_pairs() {
    let pairs: [(u32, u32); 6] = [(0, 0), (1, 9), (10, 100), (1234, 56789), (u32::MAX, 1), (7, u32::MAX)];
    for (a, b) in pairs {
        let text = format!("{a},{b}");
        assert_eq!(Throttle::from_str(&text).unwrap(), Throttle { bandwidth: a, burst: b });
    }
}

#[test]
fn throttle_plain_number_above_32_bits_is_out_of_range() {
    assert_eq!(Throttle::parse("4294967296,1"), Err(ThrottleError::OutOfRange));
}

#[test]
fn throttle_from_str_refuses_with_invalid_input() {
    let e = Throttle::from_str("10MB").unwrap_err();
    assert_eq!(e.kind(), std::io::ErrorKind::InvalidInput);
    assert_eq!(e.to_string(), "No burst given.");
    let e = Throttle::from_str("5GB,1").unwrap_err();
    assert_eq!(e.kind(), std::io::ErrorKind::InvalidInput);
    assert_eq!(e.to_string(), u32::try_from(5_000_000_000u64).unwrap_err().to_string());
    let e = Throttle::from_str("ten,1").unwrap_err();
    assert_eq!(e.kind(), std::io::ErrorKind::InvalidInput);
    assert!(e.to_string().contains("couldn't parse"));
}

#[test]
fn throttle_error_messages() {
    assert_eq!(ThrottleError::NoBurst.message(), "No burst given.");
    assert_eq!(ThrottleError::InvalidSize("bad".to_string()).message(), "bad");
    assert_eq!(ThrottleError::OutOfRange.message(), "out of range integral type conversion attempted");
}

#[test]
fn sizes_from_parser_results() {
    assert_eq!(size_from(Ok(7)), Ok(7));
    assert_eq!(size_from(Ok(4294967295)), Ok(u32::MAX));
    assert_eq!(size_from(Ok(4294967296)), Err(ThrottleError::OutOfRange));
    assert_eq!(size_from(Err("oops".to_string())), Err(ThrottleError::InvalidSize("oops".to_string())));
}
