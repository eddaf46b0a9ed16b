use vstd::prelude::*;

verus! {

/// Why a bond could not be set up.
#[derive(Clone, Debug, PartialEq, Eq)]
pub enum BondCalculatorError {
    /// The day-count tag names no known convention.
    Daycount { daycount: String },
    /// A coupon date could not be formed; holds the year, month and day
    /// the computation stood on.
    Date(i32, u32, u32),
    /// The coupon calendar holds no date.
    EmptySchedule,
}

/// Why the arguments could not be taken.
#[derive(Clone, Debug, PartialEq, Eq)]
pub enum CliError {
    /// The value of the named argument cannot be used.
    BadParseError(String),
}

} // verus!
