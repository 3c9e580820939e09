use vstd::prelude::*;

use crate::LyfcalError;
use crate::classify::DayCategory;
use crate::date::Date;
use crate::grid::Spacing;

verus! {

/// An opaque RGBA color; the core only carries it to the renderer.
#[derive(Clone, Copy, Debug, PartialEq, Eq, Structural)]
pub struct Rgba {
    pub r: u8,
    pub g: u8,
    pub b: u8,
    pub a: u8,
}

/// The lifespan and display configuration.  Lengths are integers: spacing
/// values count thousandths of a cell edge, and `unit_ratio` gives the
/// painted fraction of a cell edge in thousandths.
#[derive(Clone, Copy, Debug, PartialEq, Eq, Structural)]
pub struct Config {
    pub birthdate: Option<Date>,
    /// When set, the elapsed boundary is the current date at evaluation
    /// time; `elapsed_date` is then ignored.
    pub elapsed_date_bool: bool,
    pub elapsed_date: Date,
    /// Whole years of life expectancy; at least 1.
    pub life_expectancy: i32,
    pub display_weekends: bool,
    pub display_birthday: bool,
    pub color_weekday: Rgba,
    pub color_weekday_elapsed: Rgba,
    pub color_weekend: Rgba,
    pub color_weekend_elapsed: Rgba,
    pub color_birthday: Rgba,
    pub color_birthday_elapsed: Rgba,
    pub color_today: Rgba,
    /// Painted fraction of a cell edge, thousandths, in (0, 1000].
    pub unit_ratio: i128,
    /// Gap between grid columns, thousandths of a cell edge.
    pub col_spacing: i128,
    /// Gap between rows, thousandths of a cell edge.
    pub row_spacing: i128,
    /// Margin from the viewport edges, thousandths of a cell edge.
    pub border_spacing: i128,
}

impl Config {
    pub open spec fn spec_spacing(self) -> Spacing {
        Spacing {
            col_gap: self.col_spacing,
            row_gap: self.row_spacing,
            border_gap: self.border_spacing,
            unit_ratio: self.unit_ratio,
        }
    }

    /// What `validate` accepts: a well-formed birthdate is set, the life
    /// expectancy is at least one year, and the spacing parameters lie in
    /// their supported ranges.
    pub open spec fn valid(self) -> bool {
        &&& self.birthdate is Some
        &&& self.birthdate->Some_0.wf()
        &&& self.life_expectancy >= 1
        &&& self.spec_spacing().wf()
    }

    /// The layout parameters of this configuration.
    pub fn spacing(&self) -> (s: Spacing)
        ensures
            s == self.spec_spacing(),
    {
        Spacing {
            col_gap: self.col_spacing,
            row_gap: self.row_spacing,
            border_gap: self.border_spacing,
            unit_ratio: self.unit_ratio,
        }
    }

    /// Fails fast on configurations the core does not accept: a missing
    /// birthdate is reported as such, every other violation as an invalid
    /// configuration.
    pub fn validate(&self) -> (r: Result<(), LyfcalError>)
        ensures
            match r {
                Ok(()) => self.valid(),
                Err(e) => {
                    &&& !self.valid()
                    &&& e == (if self.birthdate is None {
                        LyfcalError::MissingBirthdate
                    } else {
                        LyfcalError::InvalidConfiguration
                    })
                },
            },
    {
        match self.birthdate {
            None => Err(LyfcalError::MissingBirthdate),
            Some(b) => {
                if b.is_wf() && self.life_expectancy >= 1 && self.spacing().is_wf() {
                    Ok(())
                } else {
                    Err(LyfcalError::InvalidConfiguration)
                }
            },
        }
    }

    /// The elapsed boundary in effect when the current date is `today`.
    pub open spec fn spec_effective_elapsed(self, today: Date) -> Date {
        if self.elapsed_date_bool {
            today
        } else {
            self.elapsed_date
        }
    }

    /// The elapsed boundary in effect when the current date is `today`.
    pub fn effective_elapsed_date(&self, today: Date) -> (d: Date)
        ensures
            d == self.spec_effective_elapsed(today),
    {
        if self.elapsed_date_bool {
            today
        } else {
            self.elapsed_date
        }
    }
}

/// The fill color the configuration assigns to a category.
pub open spec fn spec_fill_color(cfg: Config, cat: DayCategory) -> Rgba {
    match cat {
        DayCategory::WeekdayFuture => cfg.color_weekday,
        DayCategory::WeekdayElapsed => cfg.color_weekday_elapsed,
        DayCategory::WeekendFuture => cfg.color_weekend,
        DayCategory::WeekendElapsed => cfg.color_weekend_elapsed,
        DayCategory::BirthdayFuture => cfg.color_birthday,
        DayCategory::BirthdayElapsed => cfg.color_birthday_elapsed,
    }
}

impl Config {
    /// Picks the configured fill color for a category.
    pub fn fill_color(&self, cat: DayCategory) -> (c: Rgba)
        ensures
            c == spec_fill_color(*self, cat),
    {
        match cat {
            DayCategory::WeekdayFuture => self.color_weekday,
            DayCategory::WeekdayElapsed => self.color_weekday_elapsed,
            DayCategory::WeekendFuture => self.color_weekend,
            DayCategory::WeekendElapsed => self.color_weekend_elapsed,
            DayCategory::BirthdayFuture => self.color_birthday,
            DayCategory::BirthdayElapsed => self.color_birthday_elapsed,
        }
    }
}

impl Spacing {
    /// Runtime check of the spacing ranges, for values received from
    /// unverified callers.
    pub fn is_wf(&self) -> (r: bool)
        ensures
            r == self.wf(),
    {
        self.col_gap >= 0 && self.col_gap <= crate::grid::MAX_GAP && self.row_gap >= 0
            && self.row_gap <= crate::grid::MAX_GAP && self.border_gap >= 0 && self.border_gap
            <= crate::grid::MAX_GAP && self.unit_ratio >= 1 && self.unit_ratio <= 1000
    }
}

/// The configuration the application starts from.
pub open spec fn spec_default_config() -> Config {
    Config {
        birthdate: Some(Date { year: 2000, month: 1, day: 1 }),
        elapsed_date_bool: true,
        elapsed_date: Date { year: 2000, month: 1, day: 1 },
        life_expectancy: 80,
        display_weekends: true,
        display_birthday: true,
        color_weekday: Rgba { r: 255, g: 255, b: 255, a: 127 },
        color_weekday_elapsed: Rgba { r: 255, g: 255, b: 255, a: 15 },
        color_weekend: Rgba { r: 225, g: 225, b: 250, a: 127 },
        color_weekend_elapsed: Rgba { r: 225, g: 225, b: 250, a: 15 },
        color_birthday: Rgba { r: 255, g: 47, b: 47, a: 127 },
        color_birthday_elapsed: Rgba { r: 255, g: 47, b: 47, a: 15 },
        color_today: Rgba { r: 255, g: 255, b: 255, a: 127 },
        unit_ratio: 800,
        col_spacing: 1000,
        row_spacing: 0,
        border_spacing: 1000,
    }
}

impl Default for Config {
    /// The default configuration; its elapsed boundary tracks the clock
    /// through `elapsed_date_bool`, so the stored `elapsed_date` is only a
    /// placeholder.
    fn default() -> (c: Config)
        ensures
            c == spec_default_config(),
            c.valid(),
    {
        Config {
            birthdate: Some(Date { year: 2000, month: 1, day: 1 }),
            elapsed_date_bool: true,
            elapsed_date: Date { year: 2000, month: 1, day: 1 },
            life_expectancy: 80,
            display_weekends: true,
            display_birthday: true,
            color_weekday: Rgba { r: 255, g: 255, b: 255, a: 127 },
            color_weekday_elapsed: Rgba { r: 255, g: 255, b: 255, a: 15 },
            color_weekend: Rgba { r: 225, g: 225, b: 250, a: 127 },
            color_weekend_elapsed: Rgba { r: 225, g: 225, b: 250, a: 15 },
            color_birthday: Rgba { r: 255, g: 47, b: 47, a: 127 },
            color_birthday_elapsed: Rgba { r: 255, g: 47, b: 47, a: 15 },
            color_today: Rgba { r: 255, g: 255, b: 255, a: 127 },
            unit_ratio: 800,
            col_spacing: 1000,
            row_spacing: 0,
            border_spacing: 1000,
        }
    }
}

} // verus!
