use chrono::Datelike;
use lyfcal::LyfcalError;
use lyfcal::date::Date;
use lyfcal::timeline::generate_timeline;

fn nd(y: i32, m: u32, d: u32) -> chrono::NaiveDate {
    chrono::NaiveDate::from_ymd_opt(y, m, d).unwrap()
}

/// Length equals the day count between the birthdate and its anniversary,
/// as an independent date library computes it, and the entries are
/// consecutive with no duplicate or gap.
fn check_against_chrono(birth: (i32, u32, u32), years: i32) {
    let tl = generate_timeline(
        Date::new(birth.0, birth.1 as u8, birth.2 as u8).unwrap(),
        years,
    )
    .unwrap();
    let b = nd(birth.0, birth.1, birth.2);
    let anniv_base = nd(b.year() + years, 1, 1);
    // Rebuild the anniversary with the same February-29 fallback rule.
    let anniv = chrono::NaiveDate::from_ymd_opt(b.year() + years, b.month(), b.day())
        .unwrap_or_else(|| nd(anniv_base.year(), 2, 28));
    let expected_len = anniv.signed_duration_since(b).num_days();
    assert_eq!(tl.len() as i64, expected_len);
    let mut cur = b;
    for day in &tl {
        assert_eq!(day.year, cur.year());
        assert_eq!(day.month as u32, cur.month());
        assert_eq!(day.day as u32, cur.day());
        cur = cur.succ_opt().unwrap();
    }
}

#[test]
fn one_leap_year_from_2000() {
    // 2000 is a leap year: exactly 366 days from 2000-01-01 up to its
    // first anniversary.
    let tl = generate_timeline(Date::new(2000, 1, 1).unwrap(), 1).unwrap();
    assert_eq!(tl.len(), 366);
    assert_eq!(tl[0], Date::new(2000, 1, 1).unwrap());
    assert_eq!(tl[365], Date::new(2000, 12, 31).unwrap());
}

#[test]
fn leap_birthdate_crosses_common_years() {
    // A February 29 birthdate: the timeline passes Feb 29 -> Mar 1 without
    // a skip or duplicate, and the first anniversary falls back to Feb 28.
    let tl = generate_timeline(Date::new(2000, 2, 29).unwrap(), 1).unwrap();
    assert_eq!(tl[0], Date::new(2000, 2, 29).unwrap());
    assert_eq!(tl[1], Date::new(2000, 3, 1).unwrap());
    let expected = nd(2001, 2, 28).signed_duration_since(nd(2000, 2, 29)).num_days();
    assert_eq!(tl.len() as i64, expected);
    assert_eq!(*tl.last().unwrap(), Date::new(2001, 2, 27).unwrap());
}

#[test]
fn leap_birthdate_reaches_next_leap_year() {
    // Four years on, the anniversary is the next Feb 29 itself.
    let tl = generate_timeline(Date::new(2000, 2, 29).unwrap(), 4).unwrap();
    assert_eq!(tl.len(), 1461);
    assert_eq!(*tl.last().unwrap(), Date::new(2004, 2, 28).unwrap());
    // Feb 29 2004 is the anniversary, the first day no longer listed.
    assert!(!tl.contains(&Date::new(2004, 2, 29).unwrap()));
}

#[test]
fn long_lifespan_matches_date_library() {
    check_against_chrono((1987, 6, 15), 80);
}

#[test]
fn short_lifespans_match_date_library() {
    check_against_chrono((1999, 12, 31), 1);
    check_against_chrono((2004, 2, 29), 3);
    check_against_chrono((1900, 3, 1), 2);
}

#[test]
fn rejects_non_positive_life_expectancy() {
    let b = Date::new(2000, 1, 1).unwrap();
    assert_eq!(generate_timeline(b, 0).unwrap_err(), LyfcalError::InvalidConfiguration);
    assert_eq!(generate_timeline(b, -5).unwrap_err(), LyfcalError::InvalidConfiguration);
}

#[test]
fn rejects_year_range_overflow() {
    let b = Date::new(9999, 1, 1).unwrap();
    assert_eq!(generate_timeline(b, 1).unwrap_err(), LyfcalError::RangeOverflow);
}

#[test]
fn last_representable_years_still_work() {
    let tl = generate_timeline(Date::new(9998, 12, 31).unwrap(), 1).unwrap();
    assert_eq!(tl.len(), 365);
    assert_eq!(*tl.last().unwrap(), Date::new(9999, 12, 30).unwrap());
}
