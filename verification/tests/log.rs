use linkswitch::log;
use linkswitch::log::{civil_from_unix, init, rotate_if_large, timestamp, MAX_BYTES};

#[test]
fn epoch_is_1970() {
    assert_eq!(civil_from_unix(0), (1970, 1, 1, 0, 0, 0));
}

#[test]
fn known_timestamps_decode() {
    // 2026-09-07T00:00:00Z
    assert_eq!(civil_from_unix(1_788_739_200), (2026, 9, 7, 0, 0, 0));
    // A leap day, which is where naive date maths goes wrong.
    assert_eq!(civil_from_unix(1_709_164_800), (2024, 2, 29, 0, 0, 0));
}

#[test]
fn time_of_day_is_decoded() {
    assert_eq!(civil_from_unix(86_399), (1970, 1, 1, 23, 59, 59));
    assert_eq!(civil_from_unix(86_400), (1970, 1, 2, 0, 0, 0));
}

#[test]
fn time_before_1970_is_decoded() {
    assert_eq!(civil_from_unix(-1), (1969, 12, 31, 23, 59, 59));
}

#[test]
fn stamps_and_lines_have_their_form() {
    assert_eq!(timestamp(1_709_164_800), "2024-02-29T00:00:00Z");
    assert!(log::line("2024-02-29T00:00:00Z", "hello").contains("hello"));
    assert!(init("0.1.0", "worker", 77).contains("worker"));
    assert!(!rotate_if_large(MAX_BYTES));
    assert!(rotate_if_large(MAX_BYTES + 1));
}
