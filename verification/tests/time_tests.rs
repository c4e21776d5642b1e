use trainwreck::time::{format_hhmm, minutes_offset, relative_time, CivilDate, GtfsTime, Weekday};

#[test]
fn parse_reads_hours_minutes_seconds() {
    assert_eq!(GtfsTime::parse("08:30:00").unwrap().as_secs(), 30_600);
    assert_eq!(GtfsTime::parse("00:00:00").unwrap().as_secs(), 0);
    assert_eq!(GtfsTime::parse("25:22:00").unwrap().as_secs(), 91_320);
    assert_eq!(GtfsTime::parse("7:05:09").unwrap().as_secs(), 7 * 3600 + 5 * 60 + 9);
    assert_eq!(GtfsTime::parse("+1:00:00").unwrap().as_secs(), 3600);
    let t: GtfsTime = "12:00:01".parse().unwrap();
    assert_eq!(t.as_secs(), 43_201);
}

#[test]
fn parse_rejects_invalid_times() {
    assert_eq!(GtfsTime::parse("8:60:00").unwrap_err(), "invalid GTFS time: 8:60:00");
    assert_eq!(GtfsTime::parse("08:30:60").unwrap_err(), "invalid GTFS time: 08:30:60");
    assert_eq!(GtfsTime::parse("08:30").unwrap_err(), "invalid GTFS time: 08:30");
    assert_eq!(GtfsTime::parse("ab:00:00").unwrap_err(), "invalid GTFS time: ab:00:00");
    assert_eq!(GtfsTime::parse("").unwrap_err(), "invalid GTFS time: ");
    assert!(GtfsTime::parse("08:30:00:00").is_err());
    assert!(GtfsTime::parse(" 08:30:00").is_err());
    assert!(GtfsTime::parse("-1:00:00").is_err());
}

#[test]
fn to_string_shows_post_midnight_times_with_a_marker() {
    assert_eq!(GtfsTime::parse("08:05:59").unwrap().to_string(), "08:05");
    assert_eq!(GtfsTime::parse("23:59:00").unwrap().to_string(), "23:59");
    assert_eq!(GtfsTime::parse("25:22:00").unwrap().to_string(), "01:22+1d");
    assert_eq!(GtfsTime::parse("24:00:00").unwrap().to_string(), "00:00+1d");
}

#[test]
fn format_hhmm_wraps_at_midnight() {
    assert_eq!(format_hhmm(0), "00:00");
    assert_eq!(format_hhmm(52_200), "14:30");
    assert_eq!(format_hhmm(91_320), "01:22");
    assert_eq!(format_hhmm(3_599), "00:59");
}

#[test]
fn relative_time_cases() {
    assert_eq!(relative_time(1_000, 1_000), "now");
    assert_eq!(relative_time(1_060, 1_000), "now");
    assert_eq!(relative_time(940, 1_000), "now");
    assert_eq!(relative_time(939, 1_000), "1m ago");
    assert_eq!(relative_time(880, 1_000), "2m ago");
    assert_eq!(relative_time(1_061, 1_000), "in 2m");
    assert_eq!(relative_time(1_000 + 300, 1_000), "in 5m");
    assert_eq!(relative_time(1_000 + 5_400, 1_000), "in 1h 30m");
    assert_eq!(relative_time(1_000 + 3_600, 1_000), "in 1h 0m");
}

#[test]
fn minutes_offset_truncates_toward_zero() {
    assert_eq!(minutes_offset(0), "+0m");
    assert_eq!(minutes_offset(59), "+0m");
    assert_eq!(minutes_offset(125), "+2m");
    assert_eq!(minutes_offset(-59), "+0m");
    assert_eq!(minutes_offset(-60), "1m ago");
    assert_eq!(minutes_offset(-185), "3m ago");
}

#[test]
fn civil_dates_validate_and_know_their_weekday() {
    let d = CivilDate::new(2024, 2, 29).unwrap();
    assert_eq!(d.year(), 2024);
    assert_eq!(d.month(), 2);
    assert_eq!(d.day(), 29);
    assert_eq!(d.weekday(), Weekday::Thursday);
    assert_eq!(d.date_key().into_iter().collect::<String>(), "20240229");
    assert!(CivilDate::new(2023, 2, 29).is_none());
    assert!(CivilDate::new(2024, 13, 1).is_none());
    assert!(CivilDate::new(2024, 4, 31).is_none());
    assert_eq!(CivilDate::new(2000, 1, 1).unwrap().weekday(), Weekday::Saturday);
    assert_eq!(CivilDate::new(2024, 12, 1).unwrap().weekday(), Weekday::Sunday);
    assert_eq!(CivilDate::new(1600, 2, 29).unwrap().weekday(), Weekday::Tuesday);
    assert_eq!(CivilDate::new(9999, 12, 31).unwrap().weekday(), Weekday::Friday);
    assert_eq!(CivilDate::new(0, 2, 29).unwrap().weekday(), Weekday::Tuesday);
    assert_eq!(CivilDate::new(-1, 3, 1).unwrap().weekday(), Weekday::Monday);
    assert_eq!(CivilDate::new(-9999, 1, 1).unwrap().weekday(), Weekday::Monday);
    assert_eq!(CivilDate::new(99, 7, 4).unwrap().date_key().into_iter().collect::<String>(), "00990704");
}
