//! Tests for the line parser and the loading helpers.

use crashview::record::{load_records, sort_by_pc, CrashContext, ParseError};

#[test]
fn round_trip_parse() {
    let rec = CrashContext::from_str("3 0xdeadbeef 0xcafebabe /a/b /c/d").unwrap();
    assert_eq!(rec.count, 3);
    assert_eq!(rec.pc, 0xdeadbeef);
    assert_eq!(rec.lr, 0xcafebabe);
    assert_eq!(rec.paths, vec!["/a/b".to_string(), "/c/d".to_string()]);
}

#[test]
fn missing_hex_prefix_is_malformed_address() {
    let r = CrashContext::from_str("3 deadbeef 0xcafebabe /a");
    assert_eq!(r.unwrap_err(), ParseError::MalformedAddress);
}

#[test]
fn non_numeric_count_is_malformed_count() {
    let r = CrashContext::from_str("x 0x1 0x2 /a");
    assert_eq!(r.unwrap_err(), ParseError::MalformedCount);
}

#[test]
fn empty_line_is_malformed_count() {
    let r = CrashContext::from_str("");
    assert_eq!(r.unwrap_err(), ParseError::MalformedCount);
}

#[test]
fn count_overflow_is_malformed_count() {
    // One more than usize::MAX on a 64-bit machine.
    let r = CrashContext::from_str("18446744073709551616 0x1 0x2 /a");
    assert_eq!(r.unwrap_err(), ParseError::MalformedCount);
}

#[test]
fn count_at_max_is_accepted() {
    let rec = CrashContext::from_str("18446744073709551615 0x1 0x2 /a").unwrap();
    assert_eq!(rec.count, usize::MAX);
}

#[test]
fn address_overflow_is_malformed_address() {
    let r = CrashContext::from_str("3 0x10000000000000000 0x2 /a");
    assert_eq!(r.unwrap_err(), ParseError::MalformedAddress);
}

#[test]
fn address_at_max_is_accepted() {
    let rec = CrashContext::from_str("1 0xffffffffffffffff 0x0 /a").unwrap();
    assert_eq!(rec.pc, usize::MAX);
    assert_eq!(rec.lr, 0);
}

#[test]
fn bad_hex_digits_are_malformed_address() {
    let r = CrashContext::from_str("3 0x1 0xzz /a");
    assert_eq!(r.unwrap_err(), ParseError::MalformedAddress);
}

#[test]
fn missing_pc_field_is_malformed_address() {
    let r = CrashContext::from_str("3");
    assert_eq!(r.unwrap_err(), ParseError::MalformedAddress);
}

#[test]
fn missing_lr_field_is_malformed_address() {
    let r = CrashContext::from_str("3 0x1");
    assert_eq!(r.unwrap_err(), ParseError::MalformedAddress);
}

#[test]
fn prefix_without_digits_is_malformed_address() {
    let r = CrashContext::from_str("3 0x 0x2 /a");
    assert_eq!(r.unwrap_err(), ParseError::MalformedAddress);
}

#[test]
fn count_checked_before_addresses() {
    // Both the count and an address are bad; the count error wins.
    let r = CrashContext::from_str("x deadbeef 0x2 /a");
    assert_eq!(r.unwrap_err(), ParseError::MalformedCount);
}

#[test]
fn missing_remainder_yields_no_paths() {
    let rec = CrashContext::from_str("3 0x1 0x2").unwrap();
    assert!(rec.paths.is_empty());
}

#[test]
fn empty_remainder_yields_no_paths() {
    let rec = CrashContext::from_str("3 0x1 0x2 ").unwrap();
    assert!(rec.paths.is_empty());
}

#[test]
fn uppercase_hex_is_accepted() {
    let rec = CrashContext::from_str("3 0xDEAD 0xBeEf /p").unwrap();
    assert_eq!(rec.pc, 0xdead);
    assert_eq!(rec.lr, 0xbeef);
}

#[test]
fn consecutive_spaces_keep_empty_path_segments() {
    let rec = CrashContext::from_str("1 0x1 0x2 /a  /b").unwrap();
    assert_eq!(
        rec.paths,
        vec!["/a".to_string(), "".to_string(), "/b".to_string()]
    );
}

#[test]
fn single_path_line() {
    let rec = CrashContext::from_str("7 0x40001234 0x40005678 /fuzz/paths/0001").unwrap();
    assert_eq!(rec.count, 7);
    assert_eq!(rec.paths, vec!["/fuzz/paths/0001".to_string()]);
}

#[test]
fn load_records_parses_every_line_in_order() {
    let lines = vec![
        "1 0x10 0x20 /a".to_string(),
        "2 0x5 0x6 /b /c".to_string(),
    ];
    let recs = load_records(&lines).unwrap();
    assert_eq!(recs.len(), 2);
    assert_eq!(recs[0].pc, 0x10);
    assert_eq!(recs[1].pc, 0x5);
    assert_eq!(recs[1].paths, vec!["/b".to_string(), "/c".to_string()]);
}

#[test]
fn load_records_reports_first_bad_line() {
    let lines = vec![
        "1 0x10 0x20 /a".to_string(),
        "x 0x1 0x2 /b".to_string(),
        "3 deadbeef 0x2 /c".to_string(),
    ];
    let e = load_records(&lines).unwrap_err();
    assert_eq!(e, ParseError::MalformedCount);
}

#[test]
fn sort_by_pc_sorts_ascending() {
    let lines = vec![
        "1 0x20 0x1 /a".to_string(),
        "2 0x5 0x2 /b".to_string(),
        "3 0x10 0x3 /c".to_string(),
    ];
    let recs = sort_by_pc(load_records(&lines).unwrap());
    let pcs: Vec<usize> = recs.iter().map(|r| r.pc).collect();
    assert_eq!(pcs, vec![0x5, 0x10, 0x20]);
    // The records themselves travel with their keys.
    assert_eq!(recs[0].count, 2);
    assert_eq!(recs[0].paths, vec!["/b".to_string()]);
}

#[test]
fn sort_by_pc_keeps_equal_keys() {
    let lines = vec![
        "1 0x10 0x1 /a".to_string(),
        "2 0x10 0x2 /b".to_string(),
    ];
    let recs = sort_by_pc(load_records(&lines).unwrap());
    assert_eq!(recs.len(), 2);
    assert_eq!(recs[0].pc, 0x10);
    assert_eq!(recs[1].pc, 0x10);
    let counts: Vec<usize> = recs.iter().map(|r| r.count).collect();
    assert!(counts.contains(&1) && counts.contains(&2));
}
