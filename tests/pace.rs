use strava_analysis::pace::{format_pace, format_time, FormatError};

#[test]
fn format_time_zero() {
    assert_eq!(format_time(0), "0:00");
}

#[test]
fn format_time_with_hours() {
    assert_eq!(format_time(3661), "1:01:01");
    assert_eq!(format_time(3600), "1:00:00");
    assert_eq!(format_time(36610), "10:10:10");
}

#[test]
fn format_time_under_a_minute() {
    assert_eq!(format_time(59), "0:59");
    assert_eq!(format_time(5), "0:05");
}

#[test]
fn format_time_minutes() {
    assert_eq!(format_time(600), "10:00");
    assert_eq!(format_time(3599), "59:59");
}

#[test]
fn format_time_negative() {
    assert_eq!(format_time(-65), "-1:05");
}

#[test]
fn format_pace_per_kilometre() {
    assert_eq!(format_pace(100000, 500000, 1800), Ok("6:00".to_string()));
    assert_eq!(format_pace(100000, 300000, 1000), Ok("5:33".to_string()));
}

#[test]
fn format_pace_per_mile() {
    // 1800 s over 5 km: 579.36 s per mile
    assert_eq!(format_pace(160934, 500000, 1800), Ok("9:39".to_string()));
}

#[test]
fn format_pace_rounds_half_away_from_zero() {
    assert_eq!(format_pace(1, 2, 1), Ok("0:01".to_string()));
    assert_eq!(format_pace(1, 2, -1), Ok("-0:01".to_string()));
    assert_eq!(format_pace(1, 4, 1), Ok("0:00".to_string()));
}

#[test]
fn format_pace_zero_distance() {
    assert_eq!(format_pace(1000, 0, 600), Err(FormatError::DivideByZero));
}
