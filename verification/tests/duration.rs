use vr8_core::duration::format_duration;

#[test]
fn formats_milliseconds_below_one_second() {
    assert_eq!(format_duration(0), "0ms");
    assert_eq!(format_duration(7), "7ms");
    assert_eq!(format_duration(999), "999ms");
}

#[test]
fn formats_seconds_with_one_decimal() {
    assert_eq!(format_duration(1000), "1.0s");
    assert_eq!(format_duration(1234), "1.2s");
    assert_eq!(format_duration(1250), "1.2s");
    assert_eq!(format_duration(1750), "1.8s");
    assert_eq!(format_duration(1050), "1.1s");
    assert_eq!(format_duration(1150), "1.1s");
    assert_eq!(format_duration(59949), "59.9s");
    assert_eq!(format_duration(59999), "60.0s");
}

#[test]
fn formats_minutes_and_seconds() {
    assert_eq!(format_duration(60000), "1m 0s");
    assert_eq!(format_duration(61999), "1m 1s");
    assert_eq!(format_duration(3_599_999), "59m 59s");
    assert_eq!(format_duration(7_200_000), "120m 0s");
}

#[test]
fn seconds_agree_with_double_precision_formatting() {
    for ms in 1000u128..60000u128 {
        let expected = format!("{:.1}s", ms as f64 / 1000.0);
        assert_eq!(format_duration(ms), expected, "at {} ms", ms);
    }
}

#[test]
fn formats_the_largest_duration() {
    let ms = u128::MAX;
    let expected = format!("{}m {}s", ms / 60000, (ms % 60000) / 1000);
    assert_eq!(format_duration(ms), expected);
}
