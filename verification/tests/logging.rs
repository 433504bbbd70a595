use looper_engine::logfile::{civil_from_days, format_utc, LogFile, LAST_STAMP};

/// Against dates looked up in a calendar, including both leap-day cases the formula is built around
/// (2000 is a leap year, 2100 is not).
#[test]
fn epoch_seconds_become_the_right_calendar_date() {
    assert_eq!(format_utc(0), "1970-01-01 00:00:00 UTC");
    assert_eq!(format_utc(86_399), "1970-01-01 23:59:59 UTC");
    assert_eq!(format_utc(951_782_400), "2000-02-29 00:00:00 UTC");
    assert_eq!(format_utc(1_709_164_800), "2024-02-29 00:00:00 UTC");
    assert_eq!(format_utc(4_107_542_400), "2100-03-01 00:00:00 UTC");
    assert_eq!(format_utc(1_788_726_896), "2026-09-06 20:34:56 UTC");
}

#[test]
fn a_log_without_a_destination_writes_nothing() {
    let log = LogFile::opened("looper.log".to_string(), true, true, false);
    assert!(log.enabled(), "die Konsole bleibt");
    assert_eq!(log.path(), "looper.log");
    let log = LogFile::opened("looper.log".to_string(), false, false, false);
    assert!(!log.enabled(), "ohne Umleitung gibt es nichts zu schreiben");
}

#[test]
fn days_before_the_epoch_are_dates_too() {
    assert_eq!(civil_from_days(-1), (1969, 12, 31));
    assert_eq!(civil_from_days(11_016), (2000, 2, 29));
    assert_eq!(format_utc(-1), "1969-12-31 23:59:59 UTC");
}

/// Four hundred years, day by day: the dates follow one another.
#[test]
fn one_day_follows_the_other() {
    let (mut year, mut month, mut day) = civil_from_days(0);
    for n in 1..150_000i64 {
        let leap = year % 4 == 0 && (year % 100 != 0 || year % 400 == 0);
        let last = match month {
            2 => if leap { 29 } else { 28 },
            4 | 6 | 9 | 11 => 30,
            _ => 31,
        };
        if day < last {
            day += 1;
        } else if month < 12 {
            month += 1;
            day = 1;
        } else {
            year += 1;
            month = 1;
            day = 1;
        }
        assert_eq!(civil_from_days(n), (year, month, day));
    }
}

#[test]
fn the_log_opens_with_the_version_and_the_time() {
    let log = LogFile::opened("C:/logs/looper.log".to_string(), false, false, true);
    assert!(log.enabled());
    let first = log.first_line("0.4.0", 0);
    assert!(first.contains("0.4.0"), "{first}");
    assert!(first.contains("1970-01-01 00:00:00 UTC"), "{first}");
    assert!(log.second_line().contains("C:/logs/looper.log"), "{}", log.second_line());
}

/// The lines of a log are in order as text.
#[test]
fn a_later_stamp_sorts_later() {
    let times = [
        0,
        59,
        60,
        3_599,
        3_600,
        86_399,
        86_400,
        951_782_399,
        951_782_400,
        1_709_164_800,
        1_788_726_896,
        4_107_542_400,
        253_402_300_799,
    ];
    for pair in times.windows(2) {
        let (a, b) = (format_utc(pair[0]), format_utc(pair[1]));
        assert!(a < b, "{a} {b}");
        assert_eq!(a.len(), 23);
        assert_eq!(b.len(), 23);
    }
    assert_eq!(format_utc(LAST_STAMP), "9999-12-31 23:59:59 UTC");
    assert_eq!(format_utc(LAST_STAMP + 1), "10000-01-01 00:00:00 UTC");
}
