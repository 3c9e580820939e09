use chrono::Datelike;
use lyfcal::date::Date;

fn nd(y: i32, m: u32, d: u32) -> chrono::NaiveDate {
    chrono::NaiveDate::from_ymd_opt(y, m, d).unwrap()
}

#[test]
fn day_one_is_calendar_origin() {
    let d = Date::new(1, 1, 1).unwrap();
    assert_eq!(d.day_number(), 1);
    // January 1 of year 1 is a Monday in the proleptic Gregorian calendar.
    assert_eq!(d.weekday_from_monday(), 0);
}

#[test]
fn known_weekday() {
    // 2000-01-01 was a Saturday.
    let d = Date::new(2000, 1, 1).unwrap();
    assert_eq!(d.weekday_from_monday(), 5);
}

#[test]
fn validity_edges() {
    assert!(Date::new(2000, 2, 29).is_some());
    assert!(Date::new(1900, 2, 29).is_none());
    assert!(Date::new(2400, 2, 29).is_some());
    assert!(Date::new(2023, 4, 31).is_none());
    assert!(Date::new(2023, 4, 30).is_some());
    assert!(Date::new(0, 6, 1).is_none());
    assert!(Date::new(10000, 1, 1).is_none());
    assert!(Date::new(9999, 12, 31).is_some());
    assert!(Date::new(2023, 0, 1).is_none());
    assert!(Date::new(2023, 13, 1).is_none());
    assert!(Date::new(2023, 7, 0).is_none());
}

#[test]
fn agrees_with_independent_date_library_over_leap_boundary() {
    // Walk two years across the 2000 leap day and the 2001 common year.
    let mut ours = Date::new(1999, 12, 25).unwrap();
    let mut theirs = nd(1999, 12, 25);
    let base = ours.day_number();
    let base_theirs = theirs;
    for step in 0..800i64 {
        assert_eq!(ours.year, theirs.year());
        assert_eq!(ours.month as u32, theirs.month());
        assert_eq!(ours.day as u32, theirs.day());
        assert_eq!(
            ours.weekday_from_monday() as u32,
            theirs.weekday().num_days_from_monday()
        );
        assert_eq!(
            ours.day_number() - base,
            theirs.signed_duration_since(base_theirs).num_days()
        );
        assert_eq!(ours.day_number() - base, step);
        ours = ours.next_day();
        theirs = theirs.succ_opt().unwrap();
    }
}

#[test]
fn agrees_with_independent_date_library_century_rule() {
    // 1900 is not a leap year; walk across its February.
    let mut ours = Date::new(1900, 2, 26).unwrap();
    let mut theirs = nd(1900, 2, 26);
    for _ in 0..10 {
        assert_eq!(ours.year, theirs.year());
        assert_eq!(ours.month as u32, theirs.month());
        assert_eq!(ours.day as u32, theirs.day());
        ours = ours.next_day();
        theirs = theirs.succ_opt().unwrap();
    }
}

#[test]
fn weekday_names_match_date_library() {
    let mut ours = Date::new(2024, 1, 1).unwrap();
    let mut theirs = nd(2024, 1, 1);
    for _ in 0..14 {
        assert_eq!(ours.weekday_short_name(), format!("{}", theirs.weekday()));
        ours = ours.next_day();
        theirs = theirs.succ_opt().unwrap();
    }
}

#[test]
fn lexicographic_order() {
    let a = Date::new(2020, 5, 17).unwrap();
    let b = Date::new(2020, 6, 1).unwrap();
    let c = Date::new(2021, 1, 1).unwrap();
    assert!(a.date_le(&a));
    assert!(a.date_le(&b));
    assert!(!b.date_le(&a));
    assert!(b.date_le(&c));
    assert!(!c.date_le(&b));
}

#[test]
fn is_wf_checks_fields() {
    let good = Date { year: 2024, month: 2, day: 29 };
    let bad = Date { year: 2023, month: 2, day: 29 };
    assert!(good.is_wf());
    assert!(!bad.is_wf());
}
