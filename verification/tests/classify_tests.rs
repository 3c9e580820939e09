use lyfcal::LyfcalError;
use lyfcal::classify::{DayCategory, classify, is_birthday, is_weekday};
use lyfcal::config::{Config, Rgba};
use lyfcal::date::Date;

fn d(y: i32, m: u8, day: u8) -> Date {
    Date::new(y, m, day).unwrap()
}

#[test]
fn weekday_weekend_split() {
    assert!(is_weekday(d(2024, 1, 5))); // Friday
    assert!(!is_weekday(d(2024, 1, 6))); // Saturday
    assert!(!is_weekday(d(2024, 1, 7))); // Sunday
    assert!(is_weekday(d(2024, 1, 8))); // Monday
}

#[test]
fn birthday_matches_month_and_day_in_any_year() {
    let birth = d(1990, 5, 17);
    assert!(is_birthday(d(2024, 5, 17), birth));
    assert!(is_birthday(d(1990, 5, 17), birth));
    assert!(!is_birthday(d(2024, 5, 18), birth));
    assert!(!is_birthday(d(2024, 6, 17), birth));
}

#[test]
fn elapsed_boundary_splits_past_and_future() {
    let birth = d(1990, 5, 17);
    let elapsed = d(2024, 1, 10); // Wednesday
    let (cat, today) = classify(d(2024, 1, 9), birth, elapsed, true, true);
    assert_eq!(cat, DayCategory::WeekdayElapsed);
    assert!(!today);
    let (cat, today) = classify(d(2024, 1, 11), birth, elapsed, true, true);
    assert_eq!(cat, DayCategory::WeekdayFuture);
    assert!(!today);
    // The boundary day itself counts as elapsed.
    let (cat, today) = classify(d(2024, 1, 10), birth, elapsed, true, true);
    assert_eq!(cat, DayCategory::WeekdayElapsed);
    assert!(today);
}

#[test]
fn is_today_is_independent_of_category() {
    let birth = d(1990, 5, 17);
    // Elapsed date on a Saturday: weekend category, still flagged today.
    let sat = d(2024, 1, 6);
    let (cat, today) = classify(sat, birth, sat, true, true);
    assert_eq!(cat, DayCategory::WeekendElapsed);
    assert!(today);
    // Elapsed date on the birthday: birthday category, still flagged today.
    let bd = d(2024, 5, 17);
    let (cat, today) = classify(bd, birth, bd, true, true);
    assert_eq!(cat, DayCategory::BirthdayElapsed);
    assert!(today);
    // And with every optional branch disabled the flag still holds.
    let (cat, today) = classify(sat, birth, sat, false, false);
    assert_eq!(cat, DayCategory::WeekdayElapsed);
    assert!(today);
}

#[test]
fn birthday_override_honors_its_flag() {
    let birth = d(1990, 5, 17);
    let elapsed = d(2000, 1, 1);
    // 2024-05-17 is a Friday in a later year than the elapsed boundary.
    let day = d(2024, 5, 17);
    let (cat, _) = classify(day, birth, elapsed, true, true);
    assert_eq!(cat, DayCategory::BirthdayFuture);
    let (cat, _) = classify(day, birth, elapsed, true, false);
    assert_eq!(cat, DayCategory::WeekdayFuture);
    // A birthday falling on a Sunday: birthday wins when enabled.
    let sunday_bd = d(2026, 5, 17);
    let (cat, _) = classify(sunday_bd, birth, elapsed, true, true);
    assert_eq!(cat, DayCategory::BirthdayFuture);
    let (cat, _) = classify(sunday_bd, birth, elapsed, true, false);
    assert_eq!(cat, DayCategory::WeekendFuture);
}

#[test]
fn weekend_display_flag_falls_back_to_weekday() {
    let birth = d(1990, 5, 17);
    let elapsed = d(2000, 1, 1);
    let sat = d(2024, 1, 6);
    let (cat, _) = classify(sat, birth, elapsed, true, true);
    assert_eq!(cat, DayCategory::WeekendFuture);
    let (cat, _) = classify(sat, birth, elapsed, false, true);
    assert_eq!(cat, DayCategory::WeekdayFuture);
}

#[test]
fn fill_colors_follow_categories() {
    let cfg = Config::default();
    assert_eq!(cfg.fill_color(DayCategory::WeekdayFuture), cfg.color_weekday);
    assert_eq!(cfg.fill_color(DayCategory::WeekdayElapsed), cfg.color_weekday_elapsed);
    assert_eq!(cfg.fill_color(DayCategory::WeekendFuture), cfg.color_weekend);
    assert_eq!(cfg.fill_color(DayCategory::WeekendElapsed), cfg.color_weekend_elapsed);
    assert_eq!(cfg.fill_color(DayCategory::BirthdayFuture), cfg.color_birthday);
    assert_eq!(cfg.fill_color(DayCategory::BirthdayElapsed), cfg.color_birthday_elapsed);
}

#[test]
fn default_config_values() {
    let cfg = Config::default();
    assert_eq!(cfg.birthdate, Some(Date { year: 2000, month: 1, day: 1 }));
    assert!(cfg.elapsed_date_bool);
    assert_eq!(cfg.life_expectancy, 80);
    assert_eq!(cfg.unit_ratio, 800);
    assert_eq!(cfg.col_spacing, 1000);
    assert_eq!(cfg.row_spacing, 0);
    assert_eq!(cfg.border_spacing, 1000);
    assert_eq!(cfg.color_weekday, Rgba { r: 255, g: 255, b: 255, a: 127 });
    assert_eq!(cfg.color_birthday, Rgba { r: 255, g: 47, b: 47, a: 127 });
    assert!(cfg.validate().is_ok());
}

#[test]
fn effective_elapsed_date_tracks_the_flag() {
    let mut cfg = Config::default();
    let frozen = d(2020, 3, 14);
    let today = d(2026, 10, 12);
    cfg.elapsed_date = frozen;
    cfg.elapsed_date_bool = true;
    assert_eq!(cfg.effective_elapsed_date(today), today);
    cfg.elapsed_date_bool = false;
    assert_eq!(cfg.effective_elapsed_date(today), frozen);
}

#[test]
fn validate_reports_each_error() {
    let mut cfg = Config::default();
    cfg.birthdate = None;
    assert_eq!(cfg.validate().unwrap_err(), LyfcalError::MissingBirthdate);

    let mut cfg = Config::default();
    cfg.life_expectancy = 0;
    assert_eq!(cfg.validate().unwrap_err(), LyfcalError::InvalidConfiguration);

    let mut cfg = Config::default();
    cfg.unit_ratio = 0;
    assert_eq!(cfg.validate().unwrap_err(), LyfcalError::InvalidConfiguration);

    let mut cfg = Config::default();
    cfg.unit_ratio = 1001;
    assert_eq!(cfg.validate().unwrap_err(), LyfcalError::InvalidConfiguration);

    let mut cfg = Config::default();
    cfg.row_spacing = -1;
    assert_eq!(cfg.validate().unwrap_err(), LyfcalError::InvalidConfiguration);

    let mut cfg = Config::default();
    cfg.birthdate = Some(Date { year: 2023, month: 2, day: 29 });
    assert_eq!(cfg.validate().unwrap_err(), LyfcalError::InvalidConfiguration);
}
