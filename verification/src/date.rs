use vstd::prelude::*;
use vstd::arithmetic::div_mod::{
    lemma_fundamental_div_mod, lemma_fundamental_div_mod_converse, lemma_div_is_ordered,
    lemma_mod_bound,
};

verus! {

// ---------------------------------------------------------------------------
// Proleptic Gregorian calendar, restricted to the years 1 through 9999.
//
// Every date is described by the triple (year, month, day) and, equivalently,
// by its day number: the count of calendar days since the calendar's origin,
// with January 1 of year 1 being day 1.  Day 1 falls on a Monday.
// ---------------------------------------------------------------------------

pub const MIN_YEAR: i32 = 1;
pub const MAX_YEAR: i32 = 9999;

/// Day number of December 31, 9999: the last representable day.
pub const MAX_DAY_NUMBER: i64 = 3_652_059;

pub open spec fn is_leap_year(y: int) -> bool {
    (y % 4 == 0 && y % 100 != 0) || y % 400 == 0
}

pub open spec fn days_in_year(y: int) -> int {
    if is_leap_year(y) { 366 } else { 365 }
}

pub open spec fn days_in_month(y: int, m: int) -> int {
    if m == 2 {
        if is_leap_year(y) { 29 } else { 28 }
    } else if m == 4 || m == 6 || m == 9 || m == 11 {
        30
    } else {
        31
    }
}

/// Days of year `y` that lie before the first day of month `m`.
pub open spec fn days_before_month(y: int, m: int) -> int
    decreases m,
{
    if m <= 1 { 0 } else { days_before_month(y, m - 1) + days_in_month(y, m - 1) }
}

/// Days that lie before January 1 of year `y`, counted from January 1 of year 1.
pub open spec fn days_before_year(y: int) -> int
    decreases y,
{
    if y <= 1 { 0 } else { days_before_year(y - 1) + days_in_year(y - 1) }
}

/// Day number of the date (y, m, d): January 1 of year 1 is day 1.
pub open spec fn day_number_of(y: int, m: int, d: int) -> int {
    days_before_year(y) + days_before_month(y, m) + d
}

pub open spec fn valid_ymd(y: int, m: int, d: int) -> bool {
    &&& MIN_YEAR <= y <= MAX_YEAR
    &&& 1 <= m <= 12
    &&& 1 <= d <= days_in_month(y, m)
}

/// A calendar date.  Functions that consume a `Date` ask for `wf()`;
/// `Date::new` is the validating constructor.
#[derive(Clone, Copy, Debug, PartialEq, Eq, Structural)]
pub struct Date {
    pub year: i32,
    pub month: u8,
    pub day: u8,
}

impl Date {
    pub open spec fn wf(self) -> bool {
        valid_ymd(self.year as int, self.month as int, self.day as int)
    }

    pub open spec fn spec_day_number(self) -> int {
        day_number_of(self.year as int, self.month as int, self.day as int)
    }
}

/// The calendar day that follows `dt`.
pub open spec fn spec_next_date(dt: Date) -> Date {
    if (dt.day as int) < days_in_month(dt.year as int, dt.month as int) {
        Date { year: dt.year, month: dt.month, day: (dt.day + 1) as u8 }
    } else if dt.month < 12 {
        Date { year: dt.year, month: (dt.month + 1) as u8, day: 1 }
    } else {
        Date { year: (dt.year + 1) as i32, month: 1, day: 1 }
    }
}

/// The three-letter English name of the weekday `w` days after Monday.
pub open spec fn spec_weekday_name(w: int) -> Seq<char> {
    if w == 0 {
        "Mon"@
    } else if w == 1 {
        "Tue"@
    } else if w == 2 {
        "Wed"@
    } else if w == 3 {
        "Thu"@
    } else if w == 4 {
        "Fri"@
    } else if w == 5 {
        "Sat"@
    } else {
        "Sun"@
    }
}

/// Lexicographic order on (year, month, day); on well-formed dates this
/// agrees with the order of day numbers.
pub open spec fn spec_date_le(a: Date, b: Date) -> bool {
    ||| a.year < b.year
    ||| (a.year == b.year && a.month < b.month)
    ||| (a.year == b.year && a.month == b.month && a.day <= b.day)
}

// ---------------------------------------------------------------------------
// Lemmas
// ---------------------------------------------------------------------------

/// The month prefix sums, written out, and their relation to the year length.
pub proof fn lemma_month_prefix(y: int)
    ensures
        days_before_month(y, 1) == 0,
        days_before_month(y, 2) == 31,
        days_before_month(y, 3) == 59 + (if is_leap_year(y) { 1int } else { 0int }),
        days_before_month(y, 4) == 90 + (if is_leap_year(y) { 1int } else { 0int }),
        days_before_month(y, 5) == 120 + (if is_leap_year(y) { 1int } else { 0int }),
        days_before_month(y, 6) == 151 + (if is_leap_year(y) { 1int } else { 0int }),
        days_before_month(y, 7) == 181 + (if is_leap_year(y) { 1int } else { 0int }),
        days_before_month(y, 8) == 212 + (if is_leap_year(y) { 1int } else { 0int }),
        days_before_month(y, 9) == 243 + (if is_leap_year(y) { 1int } else { 0int }),
        days_before_month(y, 10) == 273 + (if is_leap_year(y) { 1int } else { 0int }),
        days_before_month(y, 11) == 304 + (if is_leap_year(y) { 1int } else { 0int }),
        days_before_month(y, 12) == 334 + (if is_leap_year(y) { 1int } else { 0int }),
        days_before_month(y, 12) + days_in_month(y, 12) == days_in_year(y),
{
    reveal_with_fuel(days_before_month, 13);
}

/// Month prefixes stay within the year: 0 <= prefix, and a whole month more
/// still fits in the year's day count.
pub proof fn lemma_dbm_bounds(y: int, m: int)
    requires
        1 <= m <= 12,
    ensures
        0 <= days_before_month(y, m),
        days_before_month(y, m) + days_in_month(y, m) <= days_in_year(y),
    decreases 12 - m,
{
    lemma_month_prefix(y);
    if m < 12 {
        lemma_dbm_bounds(y, m + 1);
    }
}

/// How an integer division by a positive constant steps when its argument
/// steps by one.
proof fn lemma_div_step(x: int, k: int)
    requires
        x >= 1,
        k >= 1,
    ensures
        x / k - (x - 1) / k == if x % k == 0 { 1int } else { 0int },
{
    lemma_fundamental_div_mod(x, k);
    lemma_mod_bound(x, k);
    let q = x / k;
    let r = x % k;
    assert(k * q == q * k) by (nonlinear_arith);
    if r == 0 {
        assert(x - 1 == (q - 1) * k + (k - 1)) by (nonlinear_arith)
            requires
                x == q * k + r,
                r == 0,
        ;
        lemma_fundamental_div_mod_converse(x - 1, k, q - 1, k - 1);
    } else {
        lemma_fundamental_div_mod_converse(x - 1, k, q, r - 1);
    }
}

/// Closed form of `days_before_year`, suitable for executable evaluation.
pub open spec fn year_prefix_closed(y: int) -> int {
    365 * (y - 1) + (y - 1) / 4 - (y - 1) / 100 + (y - 1) / 400
}

pub proof fn lemma_year_prefix_closed(y: int)
    requires
        y >= 1,
    ensures
        days_before_year(y) == year_prefix_closed(y),
    decreases y,
{
    if y == 1 {
    } else {
        lemma_year_prefix_closed(y - 1);
        let x = y - 1;
        lemma_div_step(x, 4);
        lemma_div_step(x, 100);
        lemma_div_step(x, 400);
        if x % 400 == 0 {
            lemma_mod_divides_chain(x, 400, 4);
            lemma_mod_divides_chain(x, 400, 100);
        } else if x % 100 == 0 {
            lemma_mod_divides_chain(x, 100, 4);
        }
    }
}

/// A multiple of `a` is a multiple of every divisor `b` of `a`.  Used with
/// the concrete pairs (400, 4), (400, 100) and (100, 4).
proof fn lemma_mod_divides_chain(x: int, a: int, b: int)
    requires
        a >= 1,
        b >= 1,
        a % b == 0,
        x % a == 0,
    ensures
        x % b == 0,
{
    lemma_fundamental_div_mod(x, a);
    lemma_fundamental_div_mod(a, b);
    let q = x / a;
    let p = a / b;
    assert(x == (b * p) * q);
    assert((b * p) * q == b * (p * q)) by (nonlinear_arith);
    lemma_fundamental_div_mod_converse(x, b, p * q, 0);
}

/// `days_before_year` grows by whole years.
pub proof fn lemma_dby_monotone(y1: int, y2: int)
    requires
        1 <= y1 <= y2,
    ensures
        days_before_year(y1) + (y2 - y1) * 365 <= days_before_year(y2),
    decreases y2 - y1,
{
    if y1 < y2 {
        lemma_dby_monotone(y1, y2 - 1);
    }
}

/// Day numbers of valid dates lie between 1 and `MAX_DAY_NUMBER`, and a
/// valid date's day-of-year lies within its year.
pub proof fn lemma_day_number_bounds(y: int, m: int, d: int)
    requires
        valid_ymd(y, m, d),
    ensures
        1 <= day_number_of(y, m, d),
        day_number_of(y, m, d) <= MAX_DAY_NUMBER as int,
        days_before_year(y) + 1 <= day_number_of(y, m, d),
        day_number_of(y, m, d) <= days_before_year(y) + days_in_year(y),
        day_number_of(y, m, d) <= days_before_year(y + 1),
{
    lemma_dbm_bounds(y, m);
    lemma_year_prefix_closed(y);
    assert(days_before_year(y) >= 0);
    assert(days_before_year(y + 1) == days_before_year(y) + days_in_year(y));
    if y < 9999 {
        lemma_year_prefix_closed(9999);
        lemma_dby_monotone(y + 1, 9999);
        assert(days_before_year(9999) == 3651694);
        assert(days_before_year(y + 1) <= days_before_year(9999));
    } else {
        lemma_year_prefix_closed(10000);
        assert(days_before_year(10000) == 3652059);
    }
}

/// Among well-formed dates, a strictly smaller year means a strictly
/// smaller day number.
pub proof fn lemma_day_number_year_monotone(a: Date, b: Date)
    requires
        a.wf(),
        b.wf(),
        a.year < b.year,
    ensures
        a.spec_day_number() < b.spec_day_number(),
{
    lemma_day_number_bounds(a.year as int, a.month as int, a.day as int);
    lemma_day_number_bounds(b.year as int, b.month as int, b.day as int);
    lemma_dby_monotone(a.year as int + 1, b.year as int);
}

/// Within one year, a later month begins only after every day of an
/// earlier month has passed.
proof fn lemma_dbm_month_monotone(y: int, m1: int, m2: int)
    requires
        1 <= m1 < m2 <= 12,
    ensures
        days_before_month(y, m1) + days_in_month(y, m1) <= days_before_month(y, m2),
    decreases m2 - m1,
{
    if m1 + 1 < m2 {
        lemma_dbm_month_monotone(y, m1 + 1, m2);
    }
}

/// The lexicographic date order agrees with the day-number order on
/// well-formed dates, so the "elapsed" comparison is chronological.
pub proof fn lemma_date_le_iff_day_number(a: Date, b: Date)
    requires
        a.wf(),
        b.wf(),
    ensures
        spec_date_le(a, b) <==> a.spec_day_number() <= b.spec_day_number(),
{
    if a.year < b.year {
        lemma_day_number_year_monotone(a, b);
    } else if b.year < a.year {
        lemma_day_number_year_monotone(b, a);
    } else {
        if (a.month as int) < b.month as int {
            lemma_dbm_month_monotone(a.year as int, a.month as int, b.month as int);
        } else if (b.month as int) < a.month as int {
            lemma_dbm_month_monotone(a.year as int, b.month as int, a.month as int);
        }
    }
}

// ---------------------------------------------------------------------------
// Executable calendar functions
// ---------------------------------------------------------------------------

/// Whether `y` is a Gregorian leap year.
pub fn leap_year(y: i32) -> (r: bool)
    requires
        y >= 1,
    ensures
        r == is_leap_year(y as int),
{
    (y % 4 == 0 && y % 100 != 0) || y % 400 == 0
}

/// The number of days in month `m` of year `y`.
pub fn month_length(y: i32, m: u8) -> (r: u8)
    requires
        y >= 1,
        1 <= m <= 12,
    ensures
        r as int == days_in_month(y as int, m as int),
{
    if m == 2 {
        if leap_year(y) { 29 } else { 28 }
    } else if m == 4 || m == 6 || m == 9 || m == 11 {
        30
    } else {
        31
    }
}

/// The number of days of year `y` that precede month `m`.
pub fn month_prefix_days(y: i32, m: u8) -> (r: u16)
    requires
        y >= 1,
        1 <= m <= 12,
    ensures
        r as int == days_before_month(y as int, m as int),
{
    proof {
        lemma_month_prefix(y as int);
    }
    let base: u16 = match m {
        1 => 0,
        2 => 31,
        3 => 59,
        4 => 90,
        5 => 120,
        6 => 151,
        7 => 181,
        8 => 212,
        9 => 243,
        10 => 273,
        11 => 304,
        _ => 334,
    };
    if m > 2 && leap_year(y) {
        base + 1
    } else {
        base
    }
}

impl Date {
    /// Validating constructor: `Some` exactly on valid calendar dates in the
    /// supported year range.
    pub fn new(year: i32, month: u8, day: u8) -> (r: Option<Date>)
        ensures
            valid_ymd(year as int, month as int, day as int) ==> r == Some(
                Date { year, month, day },
            ),
            !valid_ymd(year as int, month as int, day as int) ==> r == None::<Date>,
    {
        if year >= MIN_YEAR && year <= MAX_YEAR && month >= 1 && month <= 12 {
            if day >= 1 && day <= month_length(year, month) {
                Some(Date { year, month, day })
            } else {
                None
            }
        } else {
            None
        }
    }

    /// The date's day number: days since the calendar origin, counting
    /// January 1 of year 1 as day 1.
    pub fn day_number(&self) -> (n: i64)
        requires
            self.wf(),
        ensures
            n == self.spec_day_number(),
            1 <= n <= MAX_DAY_NUMBER,
    {
        proof {
            lemma_year_prefix_closed(self.year as int);
            lemma_day_number_bounds(self.year as int, self.month as int, self.day as int);
        }
        let x = (self.year - 1) as u64;
        let yp: u64 = 365 * x + x / 4 - x / 100 + x / 400;
        assert(x / 100 <= 365 * x + x / 4) by {
            lemma_div_is_ordered(0, x as int, 100);
            lemma_div_is_ordered(x as int / 100, x as int, 1);
        };
        let mp = month_prefix_days(self.year, self.month);
        yp as i64 + mp as i64 + self.day as i64
    }

    /// The weekday, counted as days from Monday: 0 is Monday, 6 is Sunday.
    pub fn weekday_from_monday(&self) -> (w: u8)
        requires
            self.wf(),
        ensures
            w as int == (self.spec_day_number() - 1) % 7,
            w < 7,
    {
        let n = self.day_number();
        let w = ((n - 1) as u64 % 7) as u8;
        w
    }

    /// The calendar day after `self`; callers must stay short of the last
    /// representable day.
    pub fn next_day(&self) -> (r: Date)
        requires
            self.wf(),
            self.spec_day_number() < MAX_DAY_NUMBER,
        ensures
            r == spec_next_date(*self),
            r.wf(),
            r.spec_day_number() == self.spec_day_number() + 1,
    {
        proof {
            lemma_month_prefix(self.year as int);
            lemma_dbm_bounds(self.year as int, self.month as int);
            lemma_day_number_bounds(self.year as int, self.month as int, self.day as int);
        }
        let ml = month_length(self.year, self.month);
        if self.day < ml {
            Date { year: self.year, month: self.month, day: self.day + 1 }
        } else if self.month < 12 {
            Date { year: self.year, month: self.month + 1, day: 1 }
        } else {
            proof {
                if self.year as int == MAX_YEAR as int {
                    lemma_year_prefix_closed(MAX_YEAR as int);
                    assert(days_before_year(9999) == 3651694);
                }
            }
            Date { year: self.year + 1, month: 1, day: 1 }
        }
    }

    /// Runtime check of well-formedness, for values received from
    /// unverified callers.
    pub fn is_wf(&self) -> (r: bool)
        ensures
            r == self.wf(),
    {
        if self.year >= MIN_YEAR && self.year <= MAX_YEAR && self.month >= 1 && self.month <= 12 {
            self.day >= 1 && self.day <= month_length(self.year, self.month)
        } else {
            false
        }
    }

    /// The three-letter English name of the date's weekday.
    pub fn weekday_short_name(&self) -> (r: &'static str)
        requires
            self.wf(),
        ensures
            r@ == spec_weekday_name((self.spec_day_number() - 1) % 7),
    {
        let w = self.weekday_from_monday();
        match w {
            0 => "Mon",
            1 => "Tue",
            2 => "Wed",
            3 => "Thu",
            4 => "Fri",
            5 => "Sat",
            _ => "Sun",
        }
    }

    /// Lexicographic comparison; the classifier's "is elapsed" test.
    pub fn date_le(&self, other: &Date) -> (r: bool)
        ensures
            r == spec_date_le(*self, *other),
    {
        if self.year != other.year {
            self.year < other.year
        } else if self.month != other.month {
            self.month < other.month
        } else {
            self.day <= other.day
        }
    }
}

} // verus!
