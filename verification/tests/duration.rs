use stream_resolver::duration::{time_to_ms, time_to_ms_checked};

#[test]
fn time_to_ms_counts_seconds_minutes_and_hours() {
    assert_eq!(time_to_ms("5"), 5_000);
    assert_eq!(time_to_ms("1:05"), 65_000);
    assert_eq!(time_to_ms("1:02:03"), 3_723_000);
    assert_eq!(time_to_ms("1:00:00:00"), 216_000_000);
}

#[test]
fn time_to_ms_counts_a_part_that_is_no_number_as_zero() {
    assert_eq!(time_to_ms(""), 0);
    assert_eq!(time_to_ms("abc"), 0);
    assert_eq!(time_to_ms("1:xx"), 60_000);
    assert_eq!(time_to_ms("x:30"), 30_000);
    assert_eq!(time_to_ms(":"), 0);
    assert_eq!(time_to_ms("2:"), 120_000);
    assert_eq!(time_to_ms(":7"), 7_000);
    assert_eq!(time_to_ms("1.5"), 0);
    assert_eq!(time_to_ms("-1"), 0);
    assert_eq!(time_to_ms(" 1"), 0);
}

#[test]
fn time_to_ms_reads_a_plus_sign_and_leading_zeros() {
    assert_eq!(time_to_ms("+7"), 7_000);
    assert_eq!(time_to_ms("007:08"), 428_000);
    assert_eq!(time_to_ms("++7"), 0);
    assert_eq!(time_to_ms("+"), 0);
}

#[test]
fn time_to_ms_checked_is_none_when_the_duration_does_not_fit() {
    assert_eq!(time_to_ms_checked("1:02:03"), Some(3_723_000));
    assert_eq!(time_to_ms_checked("18446744073709551615"), None);
    assert_eq!(time_to_ms_checked("18446744073709551615:0"), None);
    assert_eq!(time_to_ms_checked("99999999999999999999999:1"), Some(1_000));
    assert_eq!(time_to_ms_checked("1:0:0:0:0:0:0:0:0:0:0:0"), None);
    assert_eq!(time_to_ms_checked("0:0:0:0:0:0:0:0:0:0:0:1"), Some(1_000));
}
