use vstd::prelude::*;

use crate::LyfcalError;
use crate::date::{
    Date, days_in_month, spec_next_date, spec_date_le, valid_ymd, month_length,
    lemma_day_number_bounds, lemma_day_number_year_monotone, lemma_date_le_iff_day_number,
    MAX_YEAR, MAX_DAY_NUMBER,
};

verus! {

/// The anniversary of `birth`, `years` years later.  A February 29 birthdate
/// falls back to February 28 in a common year.
pub open spec fn spec_anniversary(birth: Date, years: int) -> Date {
    let y = birth.year + years;
    if birth.day as int <= days_in_month(y, birth.month as int) {
        Date { year: y as i32, month: birth.month, day: birth.day }
    } else {
        Date { year: y as i32, month: birth.month, day: 28 }
    }
}

/// What it means for `s` to be the timeline of `birth`: `count` consecutive
/// calendar days, starting at the birthdate itself, with no gap and no
/// duplicate.
pub open spec fn is_timeline(birth: Date, count: int, s: Seq<Date>) -> bool {
    &&& s.len() == count
    &&& count > 0 ==> s[0] == birth
    &&& forall|i: int|
        0 <= i < count ==> (#[trigger] s[i]).wf() && s[i].spec_day_number()
            == birth.spec_day_number() + i
    &&& forall|i: int| 0 <= i < count - 1 ==> s[i + 1] == spec_next_date(#[trigger] s[i])
}

/// A timeline has no duplicate and no out-of-order entry: along the
/// sequence the dates strictly increase, in calendar order.
pub proof fn lemma_timeline_ordered(birth: Date, count: int, s: Seq<Date>)
    requires
        is_timeline(birth, count, s),
    ensures
        forall|i: int, j: int|
            #![trigger s[i], s[j]]
            0 <= i < j < count ==> spec_date_le(s[i], s[j]) && s[i] != s[j],
{
    assert forall|i: int, j: int|
        #![trigger s[i], s[j]]
        0 <= i < j < count implies spec_date_le(s[i], s[j]) && s[i] != s[j] by {
        lemma_date_le_iff_day_number(s[i], s[j]);
    }
}

/// Enumerates every calendar day of the lifespan, from the birthdate up to
/// the anniversary `life_expectancy` years later; the timeline's length is
/// exactly the day count between the two dates, so the anniversary itself is
/// the first day no longer listed.
pub fn generate_timeline(birth: Date, life_expectancy: i32) -> (r: Result<
    Vec<Date>,
    LyfcalError,
>)
    requires
        birth.wf(),
    ensures
        match r {
            Ok(tl) => {
                &&& life_expectancy >= 1
                &&& birth.year + life_expectancy <= MAX_YEAR
                &&& tl@.len() == spec_anniversary(birth, life_expectancy as int).spec_day_number()
                    - birth.spec_day_number()
                &&& 1 <= tl@.len() <= MAX_DAY_NUMBER
                &&& is_timeline(birth, tl@.len() as int, tl@)
            },
            Err(e) => if life_expectancy <= 0 {
                e == LyfcalError::InvalidConfiguration
            } else {
                &&& birth.year + life_expectancy > MAX_YEAR
                &&& e == LyfcalError::RangeOverflow
            },
        },
{
    if life_expectancy <= 0 {
        return Err(LyfcalError::InvalidConfiguration);
    }
    let end_year_wide: i64 = birth.year as i64 + life_expectancy as i64;
    if end_year_wide > MAX_YEAR as i64 {
        return Err(LyfcalError::RangeOverflow);
    }
    let ey: i32 = end_year_wide as i32;
    let ml = month_length(ey, birth.month);
    let end = if birth.day <= ml {
        Date { year: ey, month: birth.month, day: birth.day }
    } else {
        Date { year: ey, month: birth.month, day: 28 }
    };
    assert(end == spec_anniversary(birth, life_expectancy as int));
    assert(end.wf()) by {
        assert(valid_ymd(birth.year as int, birth.month as int, birth.day as int));
        if birth.day as int > days_in_month(ey as int, birth.month as int) {
            assert(birth.month == 2);
        }
    };
    let n0 = birth.day_number();
    let n1 = end.day_number();
    proof {
        lemma_day_number_year_monotone(birth, end);
    }
    let count: i64 = n1 - n0;
    let mut out: Vec<Date> = Vec::new();
    let mut cur = birth;
    let mut k: i64 = 0;
    while k < count
        invariant
            0 <= k <= count,
            1 <= count <= MAX_DAY_NUMBER,
            birth.wf(),
            end.wf(),
            cur.wf(),
            count == end.spec_day_number() - birth.spec_day_number(),
            cur.spec_day_number() == birth.spec_day_number() + k,
            out@.len() == k,
            k == 0 ==> cur == birth,
            k > 0 ==> out@[0] == birth && cur == spec_next_date(out@[k - 1]),
            forall|i: int|
                0 <= i < k ==> (#[trigger] out@[i]).wf() && out@[i].spec_day_number()
                    == birth.spec_day_number() + i,
            forall|i: int| 0 <= i < k - 1 ==> out@[i + 1] == spec_next_date(#[trigger] out@[i]),
        decreases count - k,
    {
        proof {
            lemma_day_number_bounds(end.year as int, end.month as int, end.day as int);
        }
        out.push(cur);
        cur = cur.next_day();
        k = k + 1;
    }
    Ok(out)
}

} // verus!
