use vstd::prelude::*;
use vstd::arithmetic::div_mod::lemma_add_mod_noop_right;
use vstd::pervasive::unreached;

use crate::LyfcalError;
use crate::classify::{classify, spec_category};
use crate::config::{Config, Rgba, spec_fill_color, spec_default_config};
use crate::date::{Date, MAX_YEAR, MAX_DAY_NUMBER};
use crate::grid::{
    GridParams, CellRect, solve_grid, day_position, calculate_pos, spec_row_count, spec_capacity,
    spec_col_offset, spec_cell_rect, spec_day_col, spec_day_row, spec_day_weekday, MAX_DIMENSION,
    COL_OFFSET_CAP,
};
use crate::timeline::{generate_timeline, is_timeline, spec_anniversary};

verus! {

/// One day's paint instruction: where to draw and with which colors.  The
/// stroke is the "is today" overlay, layered on top of the fill.
#[derive(Clone, Copy, Debug, PartialEq, Eq, Structural)]
pub struct UnitPaint {
    pub rect: CellRect,
    pub fill: Rgba,
    pub stroke: Option<Rgba>,
}

/// The committed snapshot the layout works from: a copy of the
/// configuration plus the timeline generated for it.  The draft
/// configuration a caller keeps editing never touches an in-flight layout;
/// `initialize` copies it in and `populate_events` rebuilds the timeline.
pub struct DrawData {
    pub config: Config,
    pub events: Vec<Date>,
}

impl DrawData {
    pub open spec fn spec_birth(self) -> Date {
        self.config.birthdate->Some_0
    }

    /// Cells of the first partial week that stay empty before the
    /// birthdate's cell: the birthdate's days-from-Monday count.
    pub open spec fn spec_weekday_offset(self) -> int {
        (self.spec_birth().spec_day_number() - 1) % 7
    }

    /// Ready for layout: the configuration is valid and `events` holds
    /// exactly the timeline it generates.
    pub open spec fn ready(self) -> bool {
        &&& self.config.valid()
        &&& self.config.birthdate->Some_0.year + self.config.life_expectancy <= MAX_YEAR
        &&& 1 <= self.events@.len() <= MAX_DAY_NUMBER
        &&& is_timeline(self.spec_birth(), self.events@.len() as int, self.events@)
    }

    /// Commits a copy of the given configuration into the snapshot.
    pub fn initialize(&mut self, config: &Config)
        ensures
            final(self).config == *config,
            final(self).events == old(self).events,
    {
        self.config = *config;
    }

    /// DateRangeGenerator: rebuilds `events` as the timeline of the
    /// committed configuration, one entry per calendar day from the
    /// birthdate on, leap years included, for exactly the day count
    /// between the birthdate and its anniversary a lifespan later.
    pub fn populate_events(&mut self) -> (r: Result<(), LyfcalError>)
        ensures
            final(self).config == old(self).config,
            match r {
                Ok(()) => {
                    &&& old(self).config.valid()
                    &&& final(self).events@.len() == spec_anniversary(
                        old(self).spec_birth(),
                        old(self).config.life_expectancy as int,
                    ).spec_day_number() - old(self).spec_birth().spec_day_number()
                    &&& final(self).ready()
                },
                Err(e) => {
                    &&& final(self).events == old(self).events
                    &&& if old(self).config.birthdate is None {
                        e == LyfcalError::MissingBirthdate
                    } else if !old(self).config.valid() {
                        e == LyfcalError::InvalidConfiguration
                    } else {
                        &&& e == LyfcalError::RangeOverflow
                        &&& old(self).spec_birth().year + old(self).config.life_expectancy
                            > MAX_YEAR
                    }
                },
            },
    {
        match self.config.validate() {
            Err(e) => Err(e),
            Ok(()) => {
                let b = match self.config.birthdate {
                    Some(b) => b,
                    None => unreached(),
                };
                match generate_timeline(b, self.config.life_expectancy) {
                    Ok(tl) => {
                        self.events = tl;
                        Ok(())
                    },
                    Err(e) => Err(e),
                }
            },
        }
    }

    /// GridSolver: the smallest column count, with its row count, whose
    /// capacity covers every day beyond the first week's skipped cells.
    pub fn calculate_matrix(&self, width: i128, height: i128) -> (r: Result<
        GridParams,
        LyfcalError,
    >)
        requires
            self.ready(),
            width <= MAX_DIMENSION,
            height <= MAX_DIMENSION,
        ensures
            match r {
                Ok(m) => {
                    &&& width >= 1
                    &&& height >= 1
                    &&& m.wf()
                    &&& m.width == width
                    &&& m.spacing == self.config.spec_spacing()
                    &&& m.rows == spec_row_count(
                        width as int,
                        height as int,
                        m.spacing,
                        m.cols as int,
                    )
                    &&& spec_capacity(width as int, height as int, m.spacing, m.cols as int)
                        >= self.events@.len() - self.spec_weekday_offset()
                    &&& forall|c: int|
                        1 <= c < m.cols ==> spec_capacity(width as int, height as int, m.spacing, c)
                            < self.events@.len() - self.spec_weekday_offset()
                },
                Err(e) => {
                    &&& e == LyfcalError::InvalidViewport
                    &&& (width <= 0 || height <= 0)
                },
            },
    {
        let b = match self.config.birthdate {
            Some(b) => b,
            None => unreached(),
        };
        let wo = b.weekday_from_monday();
        solve_grid(self.events.len(), wo, width, height, self.config.spacing())
    }

    /// The per-column horizontal correction for this snapshot's occupancy.
    pub fn col_offset(&self, m: &GridParams) -> (off: i128)
        requires
            self.ready(),
            m.wf(),
        ensures
            off == spec_col_offset(*m, self.events@.len() + self.spec_weekday_offset()),
            0 <= off <= COL_OFFSET_CAP,
    {
        let b = match self.config.birthdate {
            Some(b) => b,
            None => unreached(),
        };
        let wo = b.weekday_from_monday();
        crate::grid::col_offset(m, self.events.len() as i128 + wo as i128)
    }

    /// The compute half of drawing one unit: its fill color by category,
    /// and the "today" stroke color when the day is the elapsed boundary.
    pub fn unit_style(&self, day: Date, elapsed: Date) -> (r: (Rgba, Option<Rgba>))
        requires
            self.ready(),
            day.wf(),
        ensures
            r.0 == spec_fill_color(
                self.config,
                spec_category(
                    day,
                    self.spec_birth(),
                    elapsed,
                    self.config.display_weekends,
                    self.config.display_birthday,
                ),
            ),
            r.1 == (if day == elapsed {
                Some(self.config.color_today)
            } else {
                None::<Rgba>
            }),
    {
        let b = match self.config.birthdate {
            Some(b) => b,
            None => unreached(),
        };
        let (cat, is_today) = classify(
            day,
            b,
            elapsed,
            self.config.display_weekends,
            self.config.display_birthday,
        );
        let fill = self.config.fill_color(cat);
        if is_today {
            (fill, Some(self.config.color_today))
        } else {
            (fill, None)
        }
    }
}

/// The weekday slot a day is painted in is the day's own weekday: day `i`
/// of a ready snapshot lands in weekday number `(day number - 1) % 7 + 1`,
/// Monday first — the same weekday the classifier sees.
pub proof fn lemma_cell_weekday_matches_date(dd: DrawData, i: int)
    requires
        dd.ready(),
        0 <= i < dd.events@.len(),
    ensures
        spec_day_weekday(i + dd.spec_weekday_offset()) == (dd.events@[i].spec_day_number() - 1) % 7
            + 1,
{
    let b = dd.spec_birth().spec_day_number();
    assert(dd.events@[i].spec_day_number() == b + i);
    lemma_add_mod_noop_right(i, b - 1, 7);
}

/// The paint instruction of day `i` of the snapshot, as a function of the
/// layout and the elapsed boundary alone.
pub open spec fn spec_unit_paint(dd: DrawData, m: GridParams, elapsed: Date, i: int) -> UnitPaint {
    let slot = i + dd.spec_weekday_offset();
    let off = spec_col_offset(m, dd.events@.len() + dd.spec_weekday_offset());
    let day = dd.events@[i];
    UnitPaint {
        rect: spec_cell_rect(
            m,
            spec_day_col(slot, m.rows as int),
            spec_day_row(slot, m.rows as int),
            spec_day_weekday(slot),
            off,
        ),
        fill: spec_fill_color(
            dd.config,
            spec_category(
                day,
                dd.spec_birth(),
                elapsed,
                dd.config.display_weekends,
                dd.config.display_birthday,
            ),
        ),
        stroke: if day == elapsed {
            Some(dd.config.color_today)
        } else {
            None::<Rgba>
        },
    }
}

/// How many days of the snapshot the grid can show: every day has a slot
/// after the first week's skipped cells, up to the grid's cell count.
pub open spec fn spec_drawn_count(dd: DrawData, m: GridParams) -> int {
    let avail = 7 * m.cols * m.rows - dd.spec_weekday_offset();
    if avail <= 0 {
        0
    } else if avail >= dd.events@.len() {
        dd.events@.len() as int
    } else {
        avail
    }
}

impl DrawData {
    /// The whole layout pass: solves the grid for the viewport and returns
    /// one paint instruction per visible day, in timeline order.
    #[verifier::loop_isolation(false)]
    pub fn draw_lyfcal(&self, width: i128, height: i128, today: Date) -> (r: Result<
        (GridParams, Vec<UnitPaint>),
        LyfcalError,
    >)
        requires
            self.ready(),
            width <= MAX_DIMENSION,
            height <= MAX_DIMENSION,
        ensures
            match r {
                Ok((m, v)) => {
                    &&& width >= 1
                    &&& height >= 1
                    &&& m.wf()
                    &&& m.width == width
                    &&& m.spacing == self.config.spec_spacing()
                    &&& m.rows == spec_row_count(
                        width as int,
                        height as int,
                        m.spacing,
                        m.cols as int,
                    )
                    &&& spec_capacity(width as int, height as int, m.spacing, m.cols as int)
                        >= self.events@.len() - self.spec_weekday_offset()
                    &&& forall|c: int|
                        1 <= c < m.cols ==> spec_capacity(width as int, height as int, m.spacing, c)
                            < self.events@.len() - self.spec_weekday_offset()
                    &&& v@.len() == spec_drawn_count(*self, m)
                    &&& forall|i: int|
                        0 <= i < v@.len() ==> v@[i] == spec_unit_paint(
                            *self,
                            m,
                            self.config.spec_effective_elapsed(today),
                            i,
                        )
                },
                Err(e) => {
                    &&& e == LyfcalError::InvalidViewport
                    &&& (width <= 0 || height <= 0)
                },
            },
    {
        let m = match self.calculate_matrix(width, height) {
            Ok(m) => m,
            Err(e) => {
                return Err(e);
            },
        };
        let b = match self.config.birthdate {
            Some(b) => b,
            None => unreached(),
        };
        let wo = b.weekday_from_monday();
        let off = crate::grid::col_offset(&m, self.events.len() as i128 + wo as i128);
        let elapsed = self.config.effective_elapsed_date(today);
        proof {
            assert(0 <= 7 * m.cols * m.rows <= 7 * crate::grid::MAX_COLS as int
                * crate::grid::MAX_ROWS as int) by (nonlinear_arith)
                requires
                    1 <= m.cols <= crate::grid::MAX_COLS as int,
                    0 <= m.rows <= crate::grid::MAX_ROWS as int,
            ;
        }
        let total: i128 = 7 * m.cols * m.rows;
        let avail: i128 = total - wo as i128;
        let len = self.events.len();
        let n: usize = if avail <= 0 {
            0
        } else if avail >= len as i128 {
            len
        } else {
            avail as usize
        };
        let mut v: Vec<UnitPaint> = Vec::new();
        let mut i: usize = 0;
        while i < n
            invariant
                v@.len() == i,
                0 <= i <= n,
                forall|j: int| 0 <= j < i ==> v@[j] == spec_unit_paint(*self, m, elapsed, j),
            decreases n - i,
        {
            let day = self.events[i];
            proof {
                assert(m.rows >= 1) by (nonlinear_arith)
                    requires
                        7 * m.cols * m.rows >= 1,
                        m.rows >= 0,
                ;
            }
            let (c, rw, w) = day_position(i, wo, m.rows);
            proof {
                crate::grid::lemma_pos_in_grid(i + wo, m.cols as int, m.rows as int);
            }
            let rect = calculate_pos(&m, c, rw, w, off);
            let (fill, stroke) = self.unit_style(day, elapsed);
            v.push(UnitPaint { rect, fill, stroke });
            i = i + 1;
        }
        Ok((m, v))
    }
}

/// An empty snapshot holding the default configuration.
impl Default for DrawData {
    fn default() -> (d: DrawData)
        ensures
            d.config == spec_default_config(),
            d.events@.len() == 0,
    {
        DrawData { config: Config::default(), events: Vec::new() }
    }
}

} // verus!
