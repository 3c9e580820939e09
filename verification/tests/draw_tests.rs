use chrono::Datelike;
use lyfcal::LyfcalError;
use lyfcal::clock::current_date;
use lyfcal::config::Config;
use lyfcal::date::Date;
use lyfcal::draw::DrawData;
use lyfcal::grid::{calculate_pos, col_offset, day_position};

fn d(y: i32, m: u8, day: u8) -> Date {
    Date::new(y, m, day).unwrap()
}

#[test]
fn initialize_commits_a_copy() {
    let mut dd = DrawData::default();
    let mut cfg = Config::default();
    cfg.life_expectancy = 42;
    cfg.birthdate = Some(d(1984, 10, 24));
    dd.initialize(&cfg);
    assert_eq!(dd.config, cfg);
    assert!(dd.events.is_empty());
}

#[test]
fn populate_events_builds_the_default_timeline() {
    let mut dd = DrawData::default();
    dd.populate_events().unwrap();
    // 2000-01-01 plus 80 years, as chrono counts the days.
    let expected = chrono::NaiveDate::from_ymd_opt(2080, 1, 1)
        .unwrap()
        .signed_duration_since(chrono::NaiveDate::from_ymd_opt(2000, 1, 1).unwrap())
        .num_days();
    assert_eq!(dd.events.len() as i64, expected);
    assert_eq!(dd.events[0], d(2000, 1, 1));
    assert_eq!(*dd.events.last().unwrap(), d(2079, 12, 31));
}

#[test]
fn populate_events_reports_a_missing_birthdate() {
    let mut dd = DrawData::default();
    dd.config.birthdate = None;
    assert_eq!(dd.populate_events().unwrap_err(), LyfcalError::MissingBirthdate);
    assert!(dd.events.is_empty());
}

#[test]
fn populate_events_reports_range_overflow() {
    let mut dd = DrawData::default();
    dd.config.birthdate = Some(d(9950, 6, 1));
    dd.config.life_expectancy = 80;
    assert_eq!(dd.populate_events().unwrap_err(), LyfcalError::RangeOverflow);
}

#[test]
fn draw_lyfcal_lays_out_every_day() {
    let mut dd = DrawData::default();
    dd.config.elapsed_date_bool = true;
    dd.populate_events().unwrap();
    let today = d(2024, 6, 1);
    let (m, units) = dd.draw_lyfcal(1_920_000, 1_080_000, today).unwrap();

    let len = dd.events.len() as i128;
    let wo = d(2000, 1, 1).weekday_from_monday() as i128; // Saturday: 5
    assert_eq!(wo, 5);
    let shown = (7 * m.cols * m.rows - wo).clamp(0, len);
    assert_eq!(units.len() as i128, shown);

    // The first unit is the birthdate's cell, computed by the same public
    // functions.
    let off = col_offset(&m, len + wo);
    let (c0, r0, w0) = day_position(0, wo as u8, m.rows);
    assert_eq!(units[0].rect, calculate_pos(&m, c0, r0, w0, off));
    // 2000-01-01 is the birthday and lies before the boundary: the dim
    // birthday fill, no stroke.
    assert_eq!(units[0].fill, dd.config.color_birthday_elapsed);
    assert_eq!(units[0].stroke, None);

    // The unit of the boundary day carries the today stroke.
    let idx = chrono::NaiveDate::from_ymd_opt(2024, 6, 1)
        .unwrap()
        .signed_duration_since(chrono::NaiveDate::from_ymd_opt(2000, 1, 1).unwrap())
        .num_days() as usize;
    assert_eq!(units[idx].stroke, Some(dd.config.color_today));
    // Its neighbors do not.
    assert_eq!(units[idx - 1].stroke, None);
    assert_eq!(units[idx + 1].stroke, None);
}

#[test]
fn draw_lyfcal_respects_a_frozen_elapsed_date() {
    let mut dd = DrawData::default();
    dd.config.elapsed_date_bool = false;
    dd.config.elapsed_date = d(2010, 1, 1);
    dd.populate_events().unwrap();
    // The `today` argument is ignored when the boundary is frozen.
    let (_, units) = dd.draw_lyfcal(1_920_000, 1_080_000, d(2024, 6, 1)).unwrap();
    let idx = chrono::NaiveDate::from_ymd_opt(2010, 1, 1)
        .unwrap()
        .signed_duration_since(chrono::NaiveDate::from_ymd_opt(2000, 1, 1).unwrap())
        .num_days() as usize;
    assert_eq!(units[idx].stroke, Some(dd.config.color_today));
    // A weekday after the frozen boundary gets the bright future fill.
    // 2010-01-04 was a Monday.
    assert_eq!(units[idx + 3].fill, dd.config.color_weekday);
    // A weekday before it gets the dim elapsed fill: 2009-12-31, Thursday.
    assert_eq!(units[idx - 1].fill, dd.config.color_weekday_elapsed);
}

#[test]
fn draw_lyfcal_rejects_degenerate_viewports() {
    let mut dd = DrawData::default();
    dd.populate_events().unwrap();
    let today = d(2024, 6, 1);
    assert_eq!(dd.draw_lyfcal(0, 1_080_000, today).unwrap_err(), LyfcalError::InvalidViewport);
    assert_eq!(dd.draw_lyfcal(1_920_000, -1, today).unwrap_err(), LyfcalError::InvalidViewport);
}

#[test]
fn current_date_agrees_with_the_clock() {
    let ours = current_date().unwrap();
    let theirs = chrono::Local::now().date_naive();
    assert_eq!(ours.year, theirs.year());
    assert_eq!(ours.month as u32, theirs.month());
    assert_eq!(ours.day as u32, theirs.day());
}
