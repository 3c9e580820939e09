use vstd::prelude::*;

use crate::date::{Date, spec_date_le};

verus! {

// ---------------------------------------------------------------------------
// DayClassifier: the semantic fill category of a day, plus the "is today"
// overlay that is drawn as a stroke on top of the fill.
// ---------------------------------------------------------------------------

/// Fill categories.  "Elapsed" means the day lies on or before the elapsed
/// boundary date.
#[derive(Clone, Copy, Debug, PartialEq, Eq, Structural)]
pub enum DayCategory {
    WeekdayFuture,
    WeekdayElapsed,
    WeekendFuture,
    WeekendElapsed,
    BirthdayFuture,
    BirthdayElapsed,
}

/// Saturday and Sunday, by the day number (day 1 of the calendar is a
/// Monday).
pub open spec fn spec_is_weekend(d: Date) -> bool {
    (d.spec_day_number() - 1) % 7 >= 5
}

/// Month and day match the birthdate, in any year.
pub open spec fn spec_is_birthday(d: Date, birthdate: Date) -> bool {
    d.month == birthdate.month && d.day == birthdate.day
}

/// The classification rule: a day on or before the elapsed boundary gets
/// the elapsed variant; the birthday category, when enabled, overrides the
/// weekday/weekend split; the weekend category applies only when weekend
/// display is enabled.
pub open spec fn spec_category(
    day: Date,
    birthdate: Date,
    elapsed: Date,
    display_weekends: bool,
    display_birthday: bool,
) -> DayCategory {
    let is_elapsed = spec_date_le(day, elapsed);
    if display_birthday && spec_is_birthday(day, birthdate) {
        if is_elapsed {
            DayCategory::BirthdayElapsed
        } else {
            DayCategory::BirthdayFuture
        }
    } else if display_weekends && spec_is_weekend(day) {
        if is_elapsed {
            DayCategory::WeekendElapsed
        } else {
            DayCategory::WeekendFuture
        }
    } else {
        if is_elapsed {
            DayCategory::WeekdayElapsed
        } else {
            DayCategory::WeekdayFuture
        }
    }
}

/// Whether `date` falls on Monday through Friday.
pub fn is_weekday(date: Date) -> (r: bool)
    requires
        date.wf(),
    ensures
        r == !spec_is_weekend(date),
{
    date.weekday_from_monday() < 5
}

/// Whether `date` has the birthdate's month and day, in any year.
pub fn is_birthday(date: Date, birthdate: Date) -> (r: bool)
    ensures
        r == spec_is_birthday(date, birthdate),
{
    date.month == birthdate.month && date.day == birthdate.day
}

/// DayClassifier: the fill category of `day` together with the "is today"
/// overlay flag.  The flag is true exactly when the day equals the elapsed
/// boundary, independently of the category.
pub fn classify(
    day: Date,
    birthdate: Date,
    elapsed: Date,
    display_weekends: bool,
    display_birthday: bool,
) -> (r: (DayCategory, bool))
    requires
        day.wf(),
    ensures
        r.0 == spec_category(day, birthdate, elapsed, display_weekends, display_birthday),
        r.1 == (day == elapsed),
{
    let is_elapsed = day.date_le(&elapsed);
    let cat = if display_birthday && is_birthday(day, birthdate) {
        if is_elapsed {
            DayCategory::BirthdayElapsed
        } else {
            DayCategory::BirthdayFuture
        }
    } else if display_weekends && !is_weekday(day) {
        if is_elapsed {
            DayCategory::WeekendElapsed
        } else {
            DayCategory::WeekendFuture
        }
    } else {
        if is_elapsed {
            DayCategory::WeekdayElapsed
        } else {
            DayCategory::WeekdayFuture
        }
    };
    let is_today = day.year == elapsed.year && day.month == elapsed.month && day.day
        == elapsed.day;
    (cat, is_today)
}

} // verus!
