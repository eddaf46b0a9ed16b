//! Fixed-income bond analytics: the coupon calendar of a bond, its day-count
//! convention, its cashflows and the yield search that prices it.
pub mod date;
pub mod args;
pub mod bond;
pub mod daycount;
pub mod error;
pub mod format;
pub mod schedule;
pub mod solver;

pub use date::Date;
pub use daycount::DayCount;
pub use error::{BondCalculatorError, CliError};
pub use schedule::{build_curve_dates, coupon_period_months};
pub use solver::{bisection_find, RATE_GRID_TOP, RATE_GRID_TOLERANCE};
pub use bond::{previous_coupon, Bond, BondArgs, Cashflow};
pub use args::get_args;
pub use format::thousandths_to_string;
