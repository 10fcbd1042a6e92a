use dpia::text::FixedText;
use dpia::clock::{
    days_in_month, debug_datetime, has_next_weekend, is_valid_date, next_weekend, parse_epoch_ms,
    sleep_secs, DateTime, DayOfWeek, PowerAction, PowerManager, PowerPhase,
};

fn at(day: u8, dow: DayOfWeek, hour: u8, minute: u8, second: u8) -> DateTime {
    DateTime { year: 2025, month: 3, day, day_of_week: dow, hour, minute, second }
}

fn date(year: u16, month: u8, day: u8, dow: DayOfWeek) -> DateTime {
    DateTime { year, month, day, day_of_week: dow, hour: 0, minute: 0, second: 0 }
}

#[test]
fn weekend_is_the_coming_saturday_midnight() {
    let wed = at(5, DayOfWeek::Wednesday, 14, 30, 12);
    assert_eq!(next_weekend(wed), at(8, DayOfWeek::Saturday, 0, 0, 0));
    let fri = at(7, DayOfWeek::Friday, 23, 59, 59);
    assert_eq!(next_weekend(fri), at(8, DayOfWeek::Saturday, 0, 0, 0));
}

#[test]
fn weekend_rolls_over_month_and_year_ends() {
    let halloween = DateTime { hour: 18, ..date(2025, 10, 31, DayOfWeek::Friday) };
    assert_eq!(next_weekend(halloween), date(2025, 11, 1, DayOfWeek::Saturday));
    let leap = DateTime { hour: 7, minute: 1, ..date(2024, 2, 26, DayOfWeek::Monday) };
    assert_eq!(next_weekend(leap), date(2024, 3, 2, DayOfWeek::Saturday));
    let common = date(2023, 2, 27, DayOfWeek::Monday);
    assert_eq!(next_weekend(common), date(2023, 3, 4, DayOfWeek::Saturday));
    let new_year = DateTime { second: 59, ..date(2026, 12, 30, DayOfWeek::Wednesday) };
    assert_eq!(next_weekend(new_year), date(2027, 1, 2, DayOfWeek::Saturday));
}

#[test]
fn calendar_months_and_dates() {
    assert_eq!(days_in_month(2024, 2), 29);
    assert_eq!(days_in_month(2023, 2), 28);
    assert_eq!(days_in_month(1900, 2), 28);
    assert_eq!(days_in_month(2000, 2), 29);
    assert_eq!(days_in_month(2025, 4), 30);
    assert_eq!(days_in_month(2025, 12), 31);
    assert!(is_valid_date(&date(2024, 2, 29, DayOfWeek::Thursday)));
    assert!(!is_valid_date(&date(2023, 2, 29, DayOfWeek::Wednesday)));
    assert!(!is_valid_date(&date(2025, 13, 1, DayOfWeek::Monday)));
    assert!(!is_valid_date(&date(2025, 4, 0, DayOfWeek::Monday)));
    assert!(has_next_weekend(&date(2025, 10, 31, DayOfWeek::Friday)));
    assert!(!has_next_weekend(&date(2025, 11, 1, DayOfWeek::Saturday)));
    assert!(!has_next_weekend(&date(2025, 4, 31, DayOfWeek::Thursday)));
    assert!(!has_next_weekend(&date(u16::MAX, 12, 30, DayOfWeek::Tuesday)));
    assert!(has_next_weekend(&date(u16::MAX, 12, 24, DayOfWeek::Tuesday)));
}

#[test]
fn debug_text() {
    let dt = at(7, DayOfWeek::Friday, 9, 5, 0);
    let text = debug_datetime(&dt, 1_741_338_300_000).unwrap().to_vec();
    assert_eq!(text, b"2025-3-7 09:05:00 (1741338300000)");
    let late = DateTime { year: 4095, month: 12, day: 31, day_of_week: DayOfWeek::Sunday, hour: 23, minute: 59, second: 59 };
    assert_eq!(debug_datetime(&late, 9_999_999_999_999).unwrap().to_vec().len(), 35);
    let wide = DateTime { year: 65535, month: 255, day: 255, day_of_week: DayOfWeek::Sunday, hour: 255, minute: 255, second: 255 };
    assert!(debug_datetime(&wide, u64::MAX).is_none());
}

#[test]
fn epoch_from_body() {
    assert_eq!(parse_epoch_ms(b"1741338300000"), Some(1_741_338_300_000));
    assert_eq!(parse_epoch_ms(b"not a number"), None);
    assert_eq!(parse_epoch_ms(b""), None);
}

#[test]
fn sleep_until_monday_six() {
    assert_eq!(sleep_secs(&at(8, DayOfWeek::Saturday, 0, 0, 0)), 2 * 86400 + 6 * 3600);
    assert_eq!(sleep_secs(&at(9, DayOfWeek::Sunday, 0, 0, 0)), 86400 + 6 * 3600);
}

#[test]
fn power_schedule_from_a_weekday() {
    let mut m = PowerManager::new();
    let wed = at(5, DayOfWeek::Wednesday, 14, 30, 12);
    assert_eq!(m.on_clock(wed), PowerAction::AlarmAt(next_weekend(wed)));
    assert_eq!(m.phase, PowerPhase::AwaitingWeekend);
    assert_eq!(m.on_clock(at(8, DayOfWeek::Saturday, 0, 0, 0)), PowerAction::SleepFor(194_400));
    assert_eq!(m.phase, PowerPhase::Asleep);
    let mon = at(10, DayOfWeek::Monday, 6, 0, 3);
    assert_eq!(m.on_clock(mon), PowerAction::AlarmAt(at(15, DayOfWeek::Saturday, 0, 0, 0)));
    assert_eq!(m.phase, PowerPhase::AwaitingWeekend);
}

#[test]
fn power_schedule_from_a_weekend() {
    let mut m = PowerManager::new();
    assert_eq!(m.on_clock(at(9, DayOfWeek::Sunday, 11, 0, 0)), PowerAction::SleepFor(108_000));
    assert_eq!(m.phase, PowerPhase::Asleep);
}
