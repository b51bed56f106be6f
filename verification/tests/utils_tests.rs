use wer::utils::{format_timestamp_day_month, format_timestamp_day_month_year};

#[test]
fn test_format_timestamp_day_month() {
    let timestamp = 1749456964;
    let result = format_timestamp_day_month(timestamp);
    assert_eq!(result, "09 Jun");
}

#[test]
fn test_format_timestamp_day_month_year() {
    let timestamp = 1749456964;
    let result = format_timestamp_day_month_year(timestamp);
    assert_eq!(result, "09 Jun 2025");
}

#[test]
fn epoch_is_the_first_of_january_1970() {
    assert_eq!(format_timestamp_day_month(0), "01 Jan");
    assert_eq!(format_timestamp_day_month_year(0), "01 Jan 1970");
}

#[test]
fn dates_before_the_epoch_are_written_too() {
    assert_eq!(format_timestamp_day_month_year(-1), "31 Dec 1969");
}

#[test]
fn days_change_at_midnight_utc() {
    assert_eq!(format_timestamp_day_month_year(86_399), "01 Jan 1970");
    assert_eq!(format_timestamp_day_month_year(86_400), "02 Jan 1970");
}

#[test]
fn a_timestamp_beyond_all_dates_still_gives_a_date() {
    let text = format_timestamp_day_month(i64::MAX);
    assert_eq!(text.chars().count(), 6);
    let text = format_timestamp_day_month_year(i64::MIN);
    assert!(text.chars().count() >= 11);
}
