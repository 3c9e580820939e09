pub mod classify;
pub mod clock;
pub mod config;
pub mod date;
pub mod draw;
pub mod grid;
pub mod timeline;

use vstd::prelude::*;

verus! {

/// The error kinds that the core reports instead of panicking.
#[derive(Clone, Copy, Debug, PartialEq, Eq, Structural)]
pub enum LyfcalError {
    /// A configuration value is outside its allowed domain
    /// (life expectancy below one year, unit ratio outside (0, 1],
    /// a spacing parameter that is negative or beyond the supported cap).
    InvalidConfiguration,
    /// Timeline generation was asked for before a birthdate was set.
    MissingBirthdate,
    /// Date arithmetic would leave the representable year range.
    RangeOverflow,
    /// A viewport dimension handed to the grid solver is not positive.
    InvalidViewport,
}

} // verus!
