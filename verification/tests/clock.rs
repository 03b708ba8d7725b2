use timer::clock::{min_sec_until, phase, span_between, BLINK_NANOS, NANOS_PER_SEC};

const SEC: u64 = 1_000_000_000;
const MS: u64 = 1_000_000;

#[test]
fn constants_are_a_second_and_800_milliseconds() {
    assert_eq!(NANOS_PER_SEC, SEC);
    assert_eq!(BLINK_NANOS, 800 * MS);
}

#[test]
fn span_is_the_difference() {
    assert_eq!(span_between(2, 5), 3);
    assert_eq!(span_between(7, 7), 0);
    assert_eq!(span_between(0, u64::MAX), u64::MAX);
}

#[test]
fn span_saturates_at_zero() {
    assert_eq!(span_between(5, 2), 0);
    assert_eq!(span_between(u64::MAX, 0), 0);
}

#[test]
fn min_sec_until_whole_seconds() {
    assert_eq!(min_sec_until(0, 90 * SEC), (1, 30));
    assert_eq!(min_sec_until(10 * SEC, 70 * SEC), (1, 0));
    assert_eq!(min_sec_until(0, 59 * SEC), (0, 59));
    assert_eq!(min_sec_until(3, 3), (0, 0));
}

#[test]
fn min_sec_until_rounds_a_fraction_up() {
    assert_eq!(min_sec_until(0, 1), (0, 1));
    assert_eq!(min_sec_until(0, SEC - 1), (0, 1));
    assert_eq!(min_sec_until(0, SEC + 1), (0, 2));
    assert_eq!(min_sec_until(0, 59 * SEC + 1), (1, 0));
    assert_eq!(min_sec_until(500 * MS, 60 * SEC), (1, 0));
}

#[test]
fn min_sec_until_is_zero_for_a_past_instant() {
    assert_eq!(min_sec_until(5 * SEC, 2 * SEC), (0, 0));
    assert_eq!(min_sec_until(u64::MAX, 0), (0, 0));
}

#[test]
fn min_sec_until_holds_the_longest_span() {
    // 18446744073.709551615 s, rounded up: 307445734 min 34 s
    assert_eq!(min_sec_until(0, u64::MAX), (307_445_734, 34));
}

#[test]
fn min_sec_until_keeps_seconds_below_sixty() {
    let mut to: u64 = 0;
    while to < 200 * SEC {
        let (_, seconds) = min_sec_until(0, to);
        assert!(seconds < 60);
        to += 333 * MS;
    }
}

#[test]
fn shown_seconds_are_the_ceiling_of_the_span() {
    let mut to: u64 = 0;
    while to < 130 * SEC {
        let (minutes, seconds) = min_sec_until(0, to);
        let ceiling = (to + SEC - 1) / SEC;
        assert_eq!(minutes * 60 + seconds, ceiling);
        to += 250 * MS;
    }
}

#[test]
fn phase_is_off_in_the_first_period() {
    assert!(!phase(0, 0, 800));
    assert!(!phase(0, 799, 800));
    assert!(!phase(1000, 1799, 800));
}

#[test]
fn phase_is_on_in_the_second_period() {
    assert!(phase(0, 800, 800));
    assert!(phase(0, 1599, 800));
    assert!(!phase(0, 1600, 800));
}

#[test]
fn phase_after_k_periods_is_on_for_odd_k() {
    let start: u64 = 12_345;
    let mut k: u64 = 0;
    while k < 50 {
        assert_eq!(phase(start, start + k * BLINK_NANOS, BLINK_NANOS), k % 2 == 1);
        k += 1;
    }
}

#[test]
fn phase_before_the_start_is_off() {
    assert!(!phase(5000, 10, 800));
}
