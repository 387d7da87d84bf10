use umami_alerts::config::ReportType;
use umami_alerts::time::{calculate_time_range, report_date, time_range_at, TimeRange};
use umami_alerts::AppError;

// 2025-01-15 12:00:00 UTC
const NOW: i64 = 1736942400;

#[test]
fn daily_range_is_yesterday_in_utc() {
    let r = time_range_at("UTC", ReportType::Daily, NOW).unwrap();
    assert_eq!(r.start, 1736812800); // 2025-01-14 00:00:00 UTC
    assert_eq!(r.end, 1736812800 + 86399);
    assert_eq!(r.start_millis(), 1736812800000);
    assert_eq!(report_date(&r), "January 14, 2025");
}

#[test]
fn daily_range_follows_the_time_zone() {
    let r = time_range_at("Asia/Kolkata", ReportType::Daily, NOW).unwrap();
    // 2025-01-14 00:00:00 +05:30
    assert_eq!(r.start, 1736812800 - 19800);
    assert_eq!(r.end - r.start, 86399);
}

#[test]
fn weekly_range_ends_yesterday_night() {
    let r = time_range_at("UTC", ReportType::Weekly, NOW).unwrap();
    assert_eq!(r.end, 1736899199); // 2025-01-14 23:59:59 UTC
    assert_eq!(r.end - r.start, 7 * 86400 - 1);
    assert_eq!(r.end_millis(), 1736899199000);
}

#[test]
fn unknown_time_zone_is_a_configuration_error() {
    match time_range_at("Invalid/Timezone", ReportType::Daily, NOW) {
        Err(AppError::Config(m)) => assert_eq!(m, "Invalid timezone: failed to parse timezone"),
        other => panic!("unexpected {:?}", other),
    }
}

#[test]
fn the_clock_gives_ranges_of_the_right_length() {
    let d: TimeRange = calculate_time_range("Europe/London", ReportType::Daily).unwrap();
    assert_eq!(d.end - d.start, 86399);
    let w = calculate_time_range("UTC", ReportType::Weekly).unwrap();
    assert_eq!(w.end - w.start, 7 * 86400 - 1);
}

#[test]
fn a_missing_local_midnight_is_reported() {
    // 2018-11-05 12:00:00 UTC; in Sao Paulo the clocks went from 00:00 to
    // 01:00 on 2018-11-04, so that day had no midnight.
    match time_range_at("America/Sao_Paulo", ReportType::Daily, 1541419200) {
        Err(AppError::Config(m)) => assert_eq!(
            m,
            "Cannot represent midnight in timezone America/Sao_Paulo for 2018-11-04"
        ),
        other => panic!("unexpected {:?}", other),
    }
    let w = time_range_at("America/Sao_Paulo", ReportType::Weekly, 1541419200).unwrap();
    assert_eq!(w.end - w.start, 7 * 86400 - 1);
}
