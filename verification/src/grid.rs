use vstd::prelude::*;
use vstd::arithmetic::div_mod::{
    lemma_fundamental_div_mod, lemma_mod_bound, lemma_div_is_ordered,
    lemma_div_is_ordered_by_denominator,
};

use crate::LyfcalError;

verus! {

// ---------------------------------------------------------------------------
// Grid geometry, in integer milli-units.
//
// A grid column is a vertical block of seven day cells.  All lengths are
// integers: viewport dimensions are milli-pixels (one thousandth of a
// pixel), spacing parameters are milli-units (one thousandth of a cell
// edge), and the unit ratio is given in thousandths.  The unit size itself
// is the exact rational `1000 * width / denom`, and every derived length is
// a single floor of an exact rational, so each result is a pure function of
// the inputs.
// ---------------------------------------------------------------------------

/// Largest accepted viewport dimension, in milli-pixels (10,000 pixels).
pub const MAX_DIMENSION: i128 = 10_000_000;

/// Largest accepted spacing parameter, in milli-units (100 cell edges).
pub const MAX_GAP: i128 = 100_000;

/// Largest day count the layout accepts; the longest representable
/// timeline stays well below it.
pub const MAX_DAY_COUNT: i128 = 4_000_000;

/// The column search never returns more columns than this.
pub const MAX_COLS: i128 = 1_000_000_000_000_000;

/// The solver never returns more rows than this.
pub const MAX_ROWS: i128 = 10_000_000_000;

/// Spacing and fill parameters, shared by the solver and the cell mapper.
#[derive(Clone, Copy, Debug, PartialEq, Eq, Structural)]
pub struct Spacing {
    /// Gap between grid columns, milli-units.
    pub col_gap: i128,
    /// Gap between rows, milli-units.
    pub row_gap: i128,
    /// Margin kept from every viewport edge, milli-units.
    pub border_gap: i128,
    /// Painted fraction of a cell edge, in thousandths, in (0, 1000].
    pub unit_ratio: i128,
}

impl Spacing {
    pub open spec fn wf(self) -> bool {
        &&& 0 <= self.col_gap <= MAX_GAP
        &&& 0 <= self.row_gap <= MAX_GAP
        &&& 0 <= self.border_gap <= MAX_GAP
        &&& 1 <= self.unit_ratio <= 1000
    }
}

/// The unit-size denominator for `cols` grid columns, in milli-units:
/// seven day columns per grid column, the gaps between grid columns, and
/// the two border margins.
pub open spec fn spec_denom(cols: int, sp: Spacing) -> int {
    7000 * cols + sp.col_gap * (cols - 1) + 2 * sp.border_gap
}

/// Numerator of the row-count quotient: the viewport height minus the two
/// border margins plus one trailing row gap, brought over the common
/// denominator `width * (1000 + row_gap)`.
pub open spec fn spec_row_numer(width: int, height: int, sp: Spacing, cols: int) -> int {
    height * spec_denom(cols, sp) + (sp.row_gap - 2 * sp.border_gap) * width
}

pub open spec fn spec_row_den(width: int, sp: Spacing) -> int {
    width * (1000 + sp.row_gap)
}

/// How many rows of cells fit the viewport height when the unit size is the
/// one derived for `cols` columns; never negative.
pub open spec fn spec_row_count(width: int, height: int, sp: Spacing, cols: int) -> int {
    let num = spec_row_numer(width, height, sp, cols);
    if num < 0 {
        0
    } else {
        num / spec_row_den(width, sp)
    }
}

/// Day capacity of the grid with `cols` columns: seven cells per column row.
pub open spec fn spec_capacity(width: int, height: int, sp: Spacing, cols: int) -> int {
    7 * cols * spec_row_count(width, height, sp, cols)
}

/// A committed grid layout: the solver's result, carrying the viewport
/// width and spacing it was derived from.
#[derive(Clone, Copy, Debug, PartialEq, Eq, Structural)]
pub struct GridParams {
    /// Number of grid columns (each seven day cells wide in day terms).
    pub cols: i128,
    /// Number of rows of cells.
    pub rows: i128,
    /// Viewport width the layout was solved for, milli-pixels.
    pub width: i128,
    /// The spacing the layout was solved with.
    pub spacing: Spacing,
}

impl GridParams {
    pub open spec fn wf(self) -> bool {
        &&& self.spacing.wf()
        &&& 1 <= self.width <= MAX_DIMENSION
        &&& 1 <= self.cols <= MAX_COLS
        &&& 0 <= self.rows <= MAX_ROWS
    }

    pub open spec fn spec_denom_val(self) -> int {
        spec_denom(self.cols as int, self.spacing)
    }

    /// The unit size in milli-pixels, rounded down.
    pub open spec fn spec_unit_size(self) -> int {
        1000 * self.width / self.spec_denom_val()
    }
}

// ---------------------------------------------------------------------------
// Division helpers
// ---------------------------------------------------------------------------

/// Relates a floor quotient to multiples of the divisor.
proof fn lemma_div_vs_mul(num: int, den: int, t: int)
    requires
        den > 0,
    ensures
        num >= t * den ==> num / den >= t,
        num < t * den ==> num / den < t,
{
    lemma_fundamental_div_mod(num, den);
    lemma_mod_bound(num, den);
    let q = num / den;
    let r = num % den;
    assert(num >= t * den ==> q >= t) by (nonlinear_arith)
        requires
            num == den * q + r,
            0 <= r < den,
            den > 0,
    ;
    assert(num < t * den ==> q < t) by (nonlinear_arith)
        requires
            num == den * q + r,
            0 <= r < den,
            den > 0,
    ;
}

/// A nonnegative numerator over a divisor at least `dmin` stays at or below
/// `cap` as soon as the numerator is at most `cap * dmin`.
proof fn lemma_div_cap(num: int, den: int, dmin: int, cap: int)
    requires
        0 <= num,
        0 < dmin <= den,
        num <= cap * dmin,
        0 <= cap,
    ensures
        num / den <= cap,
{
    lemma_div_is_ordered_by_denominator(num, dmin, den);
    lemma_div_vs_mul(num, dmin, cap + 1);
    assert(num < (cap + 1) * dmin) by (nonlinear_arith)
        requires
            num <= cap * dmin,
            dmin > 0,
    ;
}

// ---------------------------------------------------------------------------
// Bounds on the row count
// ---------------------------------------------------------------------------

/// Row counts that the column search can ever evaluate stay below this.
pub const ROW_EVAL_CAP: i128 = 4_000_000_000;

/// The row count is never negative.
proof fn lemma_row_count_nonneg(width: int, height: int, sp: Spacing, cols: int)
    requires
        width >= 1,
        sp.row_gap >= 0,
    ensures
        spec_row_count(width, height, sp, cols) >= 0,
{
    let num = spec_row_numer(width, height, sp, cols);
    let den = spec_row_den(width, sp);
    assert(den >= 1000) by (nonlinear_arith)
        requires
            den == width * (1000 + sp.row_gap),
            width >= 1,
            sp.row_gap >= 0,
    ;
    if num >= 0 {
        lemma_div_vs_mul(num, den, 0);
        assert(0 * den == 0) by (nonlinear_arith);
    }
}

/// The row count for a single column is bounded by the viewport and gap
/// caps alone.
proof fn lemma_row_first(width: int, height: int, sp: Spacing)
    requires
        1 <= width <= MAX_DIMENSION as int,
        1 <= height <= MAX_DIMENSION as int,
        sp.wf(),
    ensures
        spec_row_count(width, height, sp, 1) <= ROW_EVAL_CAP as int,
{
    let num = spec_row_numer(width, height, sp, 1);
    let den = spec_row_den(width, sp);
    assert(spec_denom(1, sp) == 7000 + sp.col_gap * 0 + 2 * sp.border_gap);
    assert(sp.col_gap * 0 == 0) by (nonlinear_arith);
    assert(num <= height * (7000 + 2 * sp.border_gap) + sp.row_gap * width) by (nonlinear_arith)
        requires
            num == height * (7000 + sp.col_gap * 0 + 2 * sp.border_gap) + (sp.row_gap - 2
                * sp.border_gap) * width,
            sp.border_gap >= 0,
            width >= 1,
    ;
    assert(height * (7000 + 2 * sp.border_gap) <= MAX_DIMENSION as int * 207_000)
        by (nonlinear_arith)
        requires
            1 <= height <= MAX_DIMENSION as int,
            0 <= sp.border_gap <= MAX_GAP as int,
    ;
    assert(sp.row_gap * width <= MAX_GAP as int * MAX_DIMENSION as int) by (nonlinear_arith)
        requires
            1 <= width <= MAX_DIMENSION as int,
            0 <= sp.row_gap <= MAX_GAP as int,
    ;
    assert(den >= 1000) by (nonlinear_arith)
        requires
            den == width * (1000 + sp.row_gap),
            width >= 1,
            sp.row_gap >= 0,
    ;
    if num >= 0 {
        lemma_div_cap(num, den, 1000, ROW_EVAL_CAP as int);
    }
}

/// Stepping the column count up by one grows the row count by at most a
/// bounded amount; in particular, as long as the previous row count was
/// below the day-count cap, the next one stays below `ROW_EVAL_CAP`.
proof fn lemma_row_step(width: int, height: int, sp: Spacing, cols: int, need: int)
    requires
        1 <= width <= MAX_DIMENSION as int,
        1 <= height <= MAX_DIMENSION as int,
        sp.wf(),
        cols >= 2,
        need <= MAX_DAY_COUNT as int,
        spec_row_count(width, height, sp, cols - 1) < need,
    ensures
        spec_row_count(width, height, sp, cols) <= ROW_EVAL_CAP as int,
{
    let num0 = spec_row_numer(width, height, sp, cols - 1);
    let num1 = spec_row_numer(width, height, sp, cols);
    let den = spec_row_den(width, sp);
    let step = height * (7000 + sp.col_gap);
    assert(num1 == num0 + step) by (nonlinear_arith)
        requires
            num0 == height * (7000 * (cols - 1) + sp.col_gap * (cols - 2) + 2 * sp.border_gap) + (
            sp.row_gap - 2 * sp.border_gap) * width,
            num1 == height * (7000 * cols + sp.col_gap * (cols - 1) + 2 * sp.border_gap) + (
            sp.row_gap - 2 * sp.border_gap) * width,
            step == height * (7000 + sp.col_gap),
    ;
    assert(0 <= step <= MAX_DIMENSION as int * 107_000) by (nonlinear_arith)
        requires
            step == height * (7000 + sp.col_gap),
            1 <= height <= MAX_DIMENSION as int,
            0 <= sp.col_gap <= MAX_GAP as int,
    ;
    assert(den >= 1000) by (nonlinear_arith)
        requires
            den == width * (1000 + sp.row_gap),
            width >= 1,
            sp.row_gap >= 0,
    ;
    if num1 < 0 {
    } else if num0 < 0 {
        // num1 is at most the step itself.
        lemma_div_cap(num1, den, 1000, ROW_EVAL_CAP as int);
    } else {
        // num0 < need * den, so num1 < need * den + step.
        lemma_div_vs_mul(num0, den, need);
        assert(num0 < need * den);
        let cap = need + MAX_DIMENSION as int * 107_000 / 1000 + 1;
        assert(num1 < cap * den) by (nonlinear_arith)
            requires
                num1 == num0 + step,
                num0 < need * den,
                0 <= step <= MAX_DIMENSION as int * 107_000,
                den >= 1000,
                cap == need + MAX_DIMENSION as int * 107_000 / 1000 + 1,
        ;
        lemma_div_vs_mul(num1, den, cap);
    }
}

// ---------------------------------------------------------------------------
// Termination bound for the column search
// ---------------------------------------------------------------------------

/// A column count that certainly has capacity for `need` days: past this
/// bound the unit size is so small that `need` rows fit the height.
pub open spec fn spec_search_bound(width: int, height: int, sp: Spacing, need: int) -> int {
    if need <= 0 {
        1
    } else {
        2 + (width * ((1000 + sp.row_gap) * (need + 1) + 2 * sp.border_gap)) / (7000 * height)
    }
}

proof fn lemma_search_bound(width: int, height: int, sp: Spacing, need: int)
    requires
        1 <= width <= MAX_DIMENSION as int,
        1 <= height <= MAX_DIMENSION as int,
        sp.wf(),
        need <= MAX_DAY_COUNT as int,
    ensures
        1 <= spec_search_bound(width, height, sp, need) <= MAX_COLS as int,
        spec_capacity(width, height, sp, spec_search_bound(width, height, sp, need)) >= need,
{
    let b = spec_search_bound(width, height, sp, need);
    if need <= 0 {
        let rc = spec_row_count(width, height, sp, 1);
        lemma_row_count_nonneg(width, height, sp, 1);
        assert(rc >= 0);
        assert(7 * 1 * rc >= need) by (nonlinear_arith)
            requires
                rc >= 0,
                need <= 0,
        ;
    } else {
        let q = width * ((1000 + sp.row_gap) * (need + 1) + 2 * sp.border_gap);
        let dd = 7000 * height;
        assert(0 <= q <= MAX_DIMENSION as int * 405_000_000_000) by (nonlinear_arith)
            requires
                q == width * ((1000 + sp.row_gap) * (need + 1) + 2 * sp.border_gap),
                1 <= width <= MAX_DIMENSION as int,
                0 <= sp.row_gap <= MAX_GAP as int,
                0 <= sp.border_gap <= MAX_GAP as int,
                1 <= need <= MAX_DAY_COUNT as int,
        ;
        // Upper bound on the search bound itself.
        lemma_div_is_ordered_by_denominator(q, 7000, dd);
        assert(q / 7000 <= MAX_DIMENSION as int * 405_000_000_000 / 7000) by {
            lemma_div_is_ordered(q, MAX_DIMENSION as int * 405_000_000_000, 7000);
        };
        assert(b <= MAX_COLS as int);
        assert(b >= 2) by {
            lemma_div_vs_mul(q, dd, 0);
            assert(0 * dd == 0) by (nonlinear_arith);
        };
        // 7000 * height * b exceeds q.
        lemma_fundamental_div_mod(q, dd);
        lemma_mod_bound(q, dd);
        let qq = q / dd;
        assert(height * (7000 * b) >= q + dd) by (nonlinear_arith)
            requires
                q == dd * qq + q % dd,
                0 <= q % dd < dd,
                dd == 7000 * height,
                b == 2 + qq,
                height >= 1,
        ;
        // The numerator at b is at least need * den plus a little more.
        let numb = spec_row_numer(width, height, sp, b);
        let den = spec_row_den(width, sp);
        assert(numb >= need * den + den) by (nonlinear_arith)
            requires
                numb == height * (7000 * b + sp.col_gap * (b - 1) + 2 * sp.border_gap) + (
                sp.row_gap - 2 * sp.border_gap) * width,
                height * (7000 * b) >= q + dd,
                q == width * ((1000 + sp.row_gap) * (need + 1) + 2 * sp.border_gap),
                den == width * (1000 + sp.row_gap),
                dd == 7000 * height,
                height >= 1,
                width >= 1,
                b >= 2,
                sp.col_gap >= 0,
                sp.border_gap >= 0,
                sp.row_gap >= 0,
                need >= 1,
        ;
        assert(den >= 1000) by (nonlinear_arith)
            requires
                den == width * (1000 + sp.row_gap),
                width >= 1,
                sp.row_gap >= 0,
        ;
        assert(numb >= 0) by (nonlinear_arith)
            requires
                numb >= need * den + den,
                den >= 1000,
                need >= 1,
        ;
        lemma_div_vs_mul(numb, den, need);
        assert(numb >= need * den) by (nonlinear_arith)
            requires
                numb >= need * den + den,
                den >= 1000,
        ;
        let rc = spec_row_count(width, height, sp, b);
        assert(rc >= need);
        assert(7 * b * rc >= need) by (nonlinear_arith)
            requires
                b >= 1,
                rc >= need,
                need >= 1,
        ;
    }
}

// ---------------------------------------------------------------------------
// Executable row count and the column search
// ---------------------------------------------------------------------------

/// Evaluates the row count for a candidate column count.
fn row_count_at(width: i128, height: i128, sp: Spacing, cols: i128) -> (r: i128)
    requires
        1 <= width <= MAX_DIMENSION,
        1 <= height <= MAX_DIMENSION,
        sp.wf(),
        1 <= cols <= MAX_COLS,
    ensures
        r == spec_row_count(width as int, height as int, sp, cols as int),
        r >= 0,
{
    proof {
        assert(0 <= sp.col_gap * (cols - 1) <= MAX_GAP as int * MAX_COLS as int)
            by (nonlinear_arith)
            requires
                0 <= sp.col_gap <= MAX_GAP as int,
                1 <= cols <= MAX_COLS as int,
        ;
    }
    let d: i128 = 7000 * cols + sp.col_gap * (cols - 1) + 2 * sp.border_gap;
    proof {
        assert(0 <= height * d <= MAX_DIMENSION as int * (7000 * MAX_COLS as int + MAX_GAP as int
            * MAX_COLS as int + 2 * MAX_GAP as int)) by (nonlinear_arith)
            requires
                1 <= height <= MAX_DIMENSION as int,
                0 <= d <= 7000 * MAX_COLS as int + MAX_GAP as int * MAX_COLS as int + 2
                    * MAX_GAP as int,
        ;
        assert(-(2 * MAX_GAP as int * MAX_DIMENSION as int) <= (sp.row_gap - 2 * sp.border_gap)
            * width <= MAX_GAP as int * MAX_DIMENSION as int) by (nonlinear_arith)
            requires
                0 <= sp.row_gap <= MAX_GAP as int,
                0 <= sp.border_gap <= MAX_GAP as int,
                1 <= width <= MAX_DIMENSION as int,
        ;
        assert(1000 <= width * (1000 + sp.row_gap) <= MAX_DIMENSION as int * (1000
            + MAX_GAP as int)) by (nonlinear_arith)
            requires
                0 <= sp.row_gap <= MAX_GAP as int,
                1 <= width <= MAX_DIMENSION as int,
        ;
    }
    let num: i128 = height * d + (sp.row_gap - 2 * sp.border_gap) * width;
    let den: i128 = width * (1000 + sp.row_gap);
    if num < 0 {
        0
    } else {
        let q: u128 = (num as u128) / (den as u128);
        proof {
            lemma_div_is_ordered(num as int, num as int, den as int);
        }
        assert(q <= num as u128) by {
            lemma_div_is_ordered_by_denominator(num as int, 1, den as int);
        };
        q as i128
    }
}

/// GridSolver: finds the smallest column count whose derived row count has
/// capacity for every day that still needs a cell (`day_count` minus the
/// `weekday_offset` cells the first partial week skips), together with that
/// row count.  Fails exactly on non-positive viewport dimensions.
pub fn solve_grid(
    day_count: usize,
    weekday_offset: u8,
    width: i128,
    height: i128,
    sp: Spacing,
) -> (r: Result<GridParams, LyfcalError>)
    requires
        day_count as int <= MAX_DAY_COUNT as int,
        weekday_offset < 7,
        sp.wf(),
        width <= MAX_DIMENSION,
        height <= MAX_DIMENSION,
    ensures
        match r {
            Ok(m) => {
                &&& width >= 1
                &&& height >= 1
                &&& m.wf()
                &&& m.width == width
                &&& m.spacing == sp
                &&& m.rows == spec_row_count(width as int, height as int, sp, m.cols as int)
                &&& spec_capacity(width as int, height as int, sp, m.cols as int) >= day_count
                    - weekday_offset
                &&& forall|c: int|
                    1 <= c < m.cols ==> spec_capacity(width as int, height as int, sp, c)
                        < day_count - weekday_offset
            },
            Err(e) => {
                &&& e == LyfcalError::InvalidViewport
                &&& (width <= 0 || height <= 0)
            },
        },
{
    if width <= 0 || height <= 0 {
        return Err(LyfcalError::InvalidViewport);
    }
    let need: i128 = day_count as i128 - weekday_offset as i128;
    let ghost bnd = spec_search_bound(width as int, height as int, sp, need as int);
    proof {
        lemma_search_bound(width as int, height as int, sp, need as int);
    }
    let mut c: i128 = 1;
    loop
        invariant
            1 <= width <= MAX_DIMENSION,
            1 <= height <= MAX_DIMENSION,
            sp.wf(),
            need == day_count - weekday_offset,
            need <= MAX_DAY_COUNT,
            bnd == spec_search_bound(width as int, height as int, sp, need as int),
            1 <= bnd <= MAX_COLS,
            spec_capacity(width as int, height as int, sp, bnd) >= need,
            1 <= c <= bnd,
            forall|k: int|
                1 <= k < c ==> spec_capacity(width as int, height as int, sp, k) < need,
        decreases bnd - c,
    {
        let r = row_count_at(width, height, sp, c);
        proof {
            if c == 1 {
                lemma_row_first(width as int, height as int, sp);
            } else {
                assert(spec_capacity(width as int, height as int, sp, c - 1) < need);
                let rprev = spec_row_count(width as int, height as int, sp, c as int - 1);
                lemma_row_count_nonneg(width as int, height as int, sp, c as int - 1);
                assert(rprev < need) by (nonlinear_arith)
                    requires
                        7 * (c - 1) * rprev < need,
                        c >= 2,
                        rprev >= 0,
                ;
                lemma_row_step(width as int, height as int, sp, c as int, need as int);
            }
            assert(7 * c * r <= 7 * MAX_COLS as int * ROW_EVAL_CAP as int) by (nonlinear_arith)
                requires
                    1 <= c <= MAX_COLS as int,
                    0 <= r <= ROW_EVAL_CAP as int,
            ;
        }
        let cap: i128 = 7 * c * r;
        if cap >= need {
            return Ok(GridParams { cols: c, rows: r, width, spacing: sp });
        }
        proof {
            assert(c < bnd);
        }
        c = c + 1;
    }
}

/// GridSolver termination bound: whenever at least one row of cells still
/// fits the viewport height at `day_count` columns, the column search
/// accepts within `day_count` candidates — at that point each column holds
/// at least seven days.  (The premise on the row count is needed: against
/// an extreme viewport, say a height of one milli-pixel under a full-width
/// viewport with a large border, the row count at `day_count` columns is
/// still zero and the search must go further.)
pub proof fn lemma_search_within_day_count(
    width: int,
    height: int,
    sp: Spacing,
    day_count: int,
    weekday_offset: int,
    c_star: int,
)
    requires
        1 <= width <= MAX_DIMENSION as int,
        1 <= height <= MAX_DIMENSION as int,
        sp.wf(),
        0 <= weekday_offset < 7,
        1 <= day_count <= MAX_DAY_COUNT as int,
        day_count - weekday_offset >= 1,
        spec_row_count(width, height, sp, day_count) >= 1,
        1 <= c_star,
        spec_capacity(width, height, sp, c_star) >= day_count - weekday_offset,
        forall|c: int|
            1 <= c < c_star ==> spec_capacity(width, height, sp, c) < day_count - weekday_offset,
    ensures
        c_star <= day_count,
{
    let rc = spec_row_count(width, height, sp, day_count);
    assert(7 * day_count * rc >= day_count) by (nonlinear_arith)
        requires
            rc >= 1,
            day_count >= 1,
    ;
    if c_star > day_count {
        assert(spec_capacity(width, height, sp, day_count) < day_count - weekday_offset);
        assert(false);
    }
}

/// CellMapper determinism: the cell rectangle is a function of the grid
/// parameters and the day's position alone, so any two results computed
/// for equal arguments are equal.
pub proof fn lemma_cell_rect_deterministic(
    m: GridParams,
    col: int,
    row: int,
    weekday: int,
    col_off: int,
    r1: CellRect,
    r2: CellRect,
)
    requires
        r1 == spec_cell_rect(m, col, row, weekday, col_off),
        r2 == spec_cell_rect(m, col, row, weekday, col_off),
    ensures
        r1 == r2,
{
}

// ---------------------------------------------------------------------------
// CellMapper
// ---------------------------------------------------------------------------

/// The painted square of one day cell, in milli-pixel viewport coordinates.
#[derive(Clone, Copy, Debug, PartialEq, Eq, Structural)]
pub struct CellRect {
    pub x: i128,
    pub y: i128,
    pub side: i128,
}

/// No column offset ever exceeds this, in milli-pixels.
pub const COL_OFFSET_CAP: i128 = 100_000_000;

/// The horizontal correction per grid column: when the grid has at least a
/// whole column of slack beyond the occupied cells, the width of one unused
/// column (seven cells and one column gap) is spread over the gaps between
/// the remaining columns, so the drawing does not end in a lonely empty
/// strip.  With fewer than three columns there is no interior gap to
/// spread the slack over, so the correction is zero.
pub open spec fn spec_col_offset(m: GridParams, used_units: int) -> int {
    if m.cols >= 3 && 7 * m.cols * m.rows - used_units >= 7 * m.rows {
        m.width * (7000 + m.spacing.col_gap) / (m.spec_denom_val() * (m.cols - 2))
    } else {
        0
    }
}

pub open spec fn spec_day_col(slot: int, rows: int) -> int {
    (slot / 7) / rows
}

pub open spec fn spec_day_row(slot: int, rows: int) -> int {
    (slot / 7) % rows
}

pub open spec fn spec_day_weekday(slot: int) -> int {
    slot % 7 + 1
}

pub open spec fn spec_cell_x(m: GridParams, col: int, weekday: int, col_off: int) -> int {
    m.width * (m.spacing.border_gap + 1000 * (weekday - 1) + 7000 * col + m.spacing.col_gap * col)
        / m.spec_denom_val() + col * col_off
}

pub open spec fn spec_cell_y(m: GridParams, row: int) -> int {
    m.width * (m.spacing.border_gap + 1000 * row + m.spacing.row_gap * row) / m.spec_denom_val()
}

/// Margin between a cell's full footprint and its painted square.
pub open spec fn spec_inset(m: GridParams) -> int {
    m.width * (1000 - m.spacing.unit_ratio) / (2 * m.spec_denom_val())
}

/// Edge length of the painted square.
pub open spec fn spec_side(m: GridParams) -> int {
    m.width * m.spacing.unit_ratio / m.spec_denom_val()
}

/// The rectangle of the day at (grid column, row, weekday number), fully
/// determined by its arguments.
pub open spec fn spec_cell_rect(
    m: GridParams,
    col: int,
    row: int,
    weekday: int,
    col_off: int,
) -> CellRect {
    CellRect {
        x: (spec_cell_x(m, col, weekday, col_off) + spec_inset(m)) as i128,
        y: (spec_cell_y(m, row) + spec_inset(m)) as i128,
        side: spec_side(m) as i128,
    }
}

/// Floor division on machine integers, for nonnegative numerators.
fn div_floor(num: i128, den: i128) -> (q: i128)
    requires
        0 <= num,
        1 <= den,
    ensures
        q == num as int / den as int,
        0 <= q <= num,
{
    let q = ((num as u128) / (den as u128)) as i128;
    assert(q <= num as u128) by {
        lemma_div_is_ordered_by_denominator(num as int, 1, den as int);
    };
    q
}

/// The unit-size denominator of a committed layout.
fn denom_of(m: &GridParams) -> (d: i128)
    requires
        m.wf(),
    ensures
        d == m.spec_denom_val(),
        7000 * m.cols <= d,
        7000 <= d,
        d <= 7000 * MAX_COLS + MAX_GAP * MAX_COLS + 2 * MAX_GAP,
{
    proof {
        assert(0 <= m.spacing.col_gap * (m.cols - 1) <= MAX_GAP as int * MAX_COLS as int)
            by (nonlinear_arith)
            requires
                0 <= m.spacing.col_gap <= MAX_GAP as int,
                1 <= m.cols <= MAX_COLS as int,
        ;
    }
    7000 * m.cols + m.spacing.col_gap * (m.cols - 1) + 2 * m.spacing.border_gap
}

impl GridParams {
    /// The unit size in milli-pixels, rounded down.
    pub fn unit_size(&self) -> (s: i128)
        requires
            self.wf(),
        ensures
            s == self.spec_unit_size(),
            0 <= s <= 1000 * MAX_DIMENSION,
    {
        let d = denom_of(self);
        div_floor(1000 * self.width, d)
    }
}

/// Computes the per-column horizontal correction for a layout holding
/// `used_units` occupied cells (leading blank cells of the first partial
/// week included).
pub fn col_offset(m: &GridParams, used_units: i128) -> (off: i128)
    requires
        m.wf(),
        0 <= used_units <= MAX_DAY_COUNT + 6,
    ensures
        off == spec_col_offset(*m, used_units as int),
        0 <= off <= COL_OFFSET_CAP,
{
    let d = denom_of(m);
    proof {
        assert(0 <= 7 * m.cols * m.rows <= 7 * MAX_COLS as int * MAX_ROWS as int)
            by (nonlinear_arith)
            requires
                1 <= m.cols <= MAX_COLS as int,
                0 <= m.rows <= MAX_ROWS as int,
        ;
    }
    let max_units: i128 = 7 * m.cols * m.rows;
    if m.cols >= 3 && max_units - used_units >= 7 * m.rows {
        proof {
            assert(21000 <= d * (m.cols - 2) <= (7000 * MAX_COLS as int + MAX_GAP as int
                * MAX_COLS as int + 2 * MAX_GAP as int) * MAX_COLS as int) by (nonlinear_arith)
                requires
                    7000 * m.cols <= d <= 7000 * MAX_COLS as int + MAX_GAP as int
                        * MAX_COLS as int + 2 * MAX_GAP as int,
                    3 <= m.cols <= MAX_COLS as int,
            ;
            assert(0 <= m.width * (7000 + m.spacing.col_gap) <= MAX_DIMENSION as int * (7000
                + MAX_GAP as int)) by (nonlinear_arith)
                requires
                    1 <= m.width <= MAX_DIMENSION as int,
                    0 <= m.spacing.col_gap <= MAX_GAP as int,
            ;
        }
        let num: i128 = m.width * (7000 + m.spacing.col_gap);
        let den: i128 = d * (m.cols - 2);
        let off = div_floor(num, den);
        proof {
            lemma_div_cap(num as int, den as int, 21000, COL_OFFSET_CAP as int);
        }
        off
    } else {
        0
    }
}

/// Decomposes a day's index into its grid position: the day occupies slot
/// `day_index + weekday_offset`, slots fill a seven-cell block top to
/// bottom, and blocks fill each column of `rows` blocks before the next
/// column starts.
pub fn day_position(day_index: usize, weekday_offset: u8, rows: i128) -> (p: (i128, i128, u8))
    requires
        day_index as int <= MAX_DAY_COUNT as int,
        weekday_offset < 7,
        1 <= rows <= MAX_ROWS,
    ensures
        p.0 == spec_day_col(day_index + weekday_offset, rows as int),
        p.1 == spec_day_row(day_index + weekday_offset, rows as int),
        p.2 as int == spec_day_weekday(day_index + weekday_offset),
        0 <= p.0 <= MAX_DAY_COUNT,
        0 <= p.1 < rows,
        1 <= p.2 <= 7,
{
    let slot: i128 = day_index as i128 + weekday_offset as i128;
    let block = div_floor(slot, 7);
    let col = div_floor(block, rows);
    let row: i128 = ((block as u128) % (rows as u128)) as i128;
    proof {
        lemma_mod_bound(block as int, rows as int);
    }
    let w: u8 = ((slot as u128) % 7) as u8;
    proof {
        lemma_mod_bound(slot as int, 7);
    }
    (col, row, w + 1)
}

/// A slot below the grid's total cell count decomposes to a column index
/// inside the grid.
pub proof fn lemma_pos_in_grid(slot: int, cols: int, rows: int)
    requires
        0 <= slot,
        1 <= cols,
        1 <= rows,
        slot < 7 * cols * rows,
    ensures
        spec_day_col(slot, rows) < cols,
{
    assert(slot < (cols * rows) * 7) by (nonlinear_arith)
        requires
            slot < 7 * cols * rows,
    ;
    lemma_div_vs_mul(slot, 7, cols * rows);
    lemma_div_vs_mul(slot / 7, rows, cols);
}

/// CellMapper: the screen rectangle of the day standing at grid column
/// `col`, row `row`, weekday number `weekday` (1 is Monday), with the
/// horizontal correction `col_off` applied per grid column.  The result is
/// a pure function of the arguments.
pub fn calculate_pos(
    m: &GridParams,
    col: i128,
    row: i128,
    weekday: u8,
    col_off: i128,
) -> (r: CellRect)
    requires
        m.wf(),
        0 <= col < m.cols,
        0 <= row < m.rows,
        1 <= weekday <= 7,
        0 <= col_off <= COL_OFFSET_CAP,
    ensures
        r == spec_cell_rect(*m, col as int, row as int, weekday as int, col_off as int),
{
    let d = denom_of(m);
    proof {
        assert(0 <= m.spacing.col_gap * col <= MAX_GAP as int * MAX_COLS as int)
            by (nonlinear_arith)
            requires
                0 <= m.spacing.col_gap <= MAX_GAP as int,
                0 <= col <= MAX_COLS as int,
        ;
        assert(0 <= m.spacing.row_gap * row <= MAX_GAP as int * MAX_ROWS as int)
            by (nonlinear_arith)
            requires
                0 <= m.spacing.row_gap <= MAX_GAP as int,
                0 <= row <= MAX_ROWS as int,
        ;
    }
    let xin: i128 = m.spacing.border_gap + 1000 * (weekday as i128 - 1) + 7000 * col
        + m.spacing.col_gap * col;
    let yin: i128 = m.spacing.border_gap + 1000 * row + m.spacing.row_gap * row;
    proof {
        assert(0 <= m.width * xin <= MAX_DIMENSION as int * (MAX_GAP as int + 7000 + 7000
            * MAX_COLS as int + MAX_GAP as int * MAX_COLS as int)) by (nonlinear_arith)
            requires
                1 <= m.width <= MAX_DIMENSION as int,
                0 <= xin <= MAX_GAP as int + 7000 + 7000 * MAX_COLS as int + MAX_GAP as int
                    * MAX_COLS as int,
        ;
        assert(0 <= m.width * yin <= MAX_DIMENSION as int * (MAX_GAP as int + 1000
            * MAX_ROWS as int + MAX_GAP as int * MAX_ROWS as int)) by (nonlinear_arith)
            requires
                1 <= m.width <= MAX_DIMENSION as int,
                0 <= yin <= MAX_GAP as int + 1000 * MAX_ROWS as int + MAX_GAP as int
                    * MAX_ROWS as int,
        ;
        assert(0 <= col * col_off <= MAX_COLS as int * COL_OFFSET_CAP as int) by (nonlinear_arith)
            requires
                0 <= col <= MAX_COLS as int,
                0 <= col_off <= COL_OFFSET_CAP as int,
        ;
        assert(0 <= m.width * (1000 - m.spacing.unit_ratio) <= MAX_DIMENSION as int * 1000)
            by (nonlinear_arith)
            requires
                1 <= m.width <= MAX_DIMENSION as int,
                1 <= m.spacing.unit_ratio <= 1000,
        ;
        assert(0 <= m.width * m.spacing.unit_ratio <= MAX_DIMENSION as int * 1000)
            by (nonlinear_arith)
            requires
                1 <= m.width <= MAX_DIMENSION as int,
                1 <= m.spacing.unit_ratio <= 1000,
        ;
    }
    let x_base = div_floor(m.width * xin, d) + col * col_off;
    let y_base = div_floor(m.width * yin, d);
    let inset = div_floor(m.width * (1000 - m.spacing.unit_ratio), 2 * d);
    let side = div_floor(m.width * m.spacing.unit_ratio, d);
    CellRect { x: x_base + inset, y: y_base + inset, side }
}

} // verus!
