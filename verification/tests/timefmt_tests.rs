use fix_engine::timefmt::{format_sending_time, u64_to_padded};

#[test]
fn sending_time_epoch() {
    assert_eq!(format_sending_time(0), "19700101-00:00:00.000");
}

#[test]
fn sending_time_millis_padded() {
    assert_eq!(format_sending_time(1234), "19700101-00:00:01.234");
    assert_eq!(format_sending_time(42), "19700101-00:00:00.042");
}

#[test]
fn sending_time_known_instant() {
    assert_eq!(format_sending_time(1_700_000_000_000), "20231114-22:13:20.000");
}

#[test]
fn sending_time_leap_day() {
    assert_eq!(format_sending_time(951_782_400_000), "20000229-00:00:00.000");
}

#[test]
fn sending_time_end_of_year() {
    // One millisecond before a year boundary, and the boundary itself.
    assert_eq!(format_sending_time(1_704_067_199_999), "20231231-23:59:59.999");
    assert_eq!(format_sending_time(1_704_067_200_000), "20240101-00:00:00.000");
}

#[test]
fn padded_rendering() {
    assert_eq!(u64_to_padded(7, 3), "007");
    assert_eq!(u64_to_padded(0, 2), "00");
    assert_eq!(u64_to_padded(12345, 3), "12345");
}
