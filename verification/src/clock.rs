use vstd::prelude::*;

use crate::date::Date;

verus! {

/// Relies on chrono: `Local::now().date_naive()` is today's date in the
/// local time zone, read out through `Datelike::year`, `Datelike::month`
/// (documented to range over 1..=12) and `Datelike::day` (documented to
/// range over 1..=31).  Nothing else is assumed: the value depends on the
/// clock.
#[verifier::external_body]
fn now_ymd() -> (r: (i32, u8, u8))
    ensures
        1 <= r.1 <= 12,
        1 <= r.2 <= 31,
{
    let today = chrono::Local::now().date_naive();
    let y = chrono::Datelike::year(&today);
    let m = chrono::Datelike::month(&today) as u8;
    let d = chrono::Datelike::day(&today) as u8;
    (y, m, d)
}

/// Today's date according to the system clock, if it falls in the
/// supported year range.
pub fn current_date() -> (r: Option<Date>)
    ensures
        match r {
            Some(d) => d.wf(),
            None => true,
        },
{
    let (y, m, d) = now_ymd();
    Date::new(y, m, d)
}

} // verus!
