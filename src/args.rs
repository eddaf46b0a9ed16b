use vstd::prelude::*;
use vstd::string::StringExecFns;

use crate::bond::BondArgs;
use crate::date::Date;
use crate::error::CliError;

verus! {

/// Day-count tag taken when none is given.
pub open spec fn default_daycount() -> Seq<char> {
    "act/act"@
}

/// Collects a bond's terms from the command line's values: the day-count tag
/// defaults to `act/act` and the settlement date to `today`. A frequency
/// whose whole part is not between 1 and 12 is refused, as is a date that does
/// not exist.
pub fn get_args(
    daycount: Option<String>,
    frequency: u32,
    settlement_date: Option<Date>,
    today: Date,
    maturity_date: Date,
) -> (r: Result<BondArgs, CliError>)
    ensures
        ({
            let settlement = match settlement_date {
                Some(d) => d,
                None => today,
            };
            if !(1 <= frequency <= 12) {
                r matches Err(CliError::BadParseError(n)) && n@ == "frequency"@
            } else if !settlement.wf() {
                r matches Err(CliError::BadParseError(n)) && n@ == "settlement-date"@
            } else if !maturity_date.wf() {
                r matches Err(CliError::BadParseError(n)) && n@ == "maturity-date"@
            } else {
                r matches Ok(a) && a.wf() && a.frequency == frequency && a.settlement_date
                    == settlement && a.maturity_date == maturity_date && a.daycount@ == match daycount {
                    Some(t) => t@,
                    None => default_daycount(),
                }
            }
        }),
{
    let settlement = match settlement_date {
        Some(d) => d,
        None => today,
    };
    if frequency < 1 || frequency > 12 {
        return Err(CliError::BadParseError(String::from_str("frequency")));
    }
    if Date::from_ymd_opt(settlement.year, settlement.month, settlement.day).is_none() {
        return Err(CliError::BadParseError(String::from_str("settlement-date")));
    }
    if Date::from_ymd_opt(maturity_date.year, maturity_date.month, maturity_date.day).is_none() {
        return Err(CliError::BadParseError(String::from_str("maturity-date")));
    }
    let daycount = match daycount {
        Some(t) => t,
        None => String::from_str("act/act"),
    };
    Ok(BondArgs { daycount, frequency, settlement_date: settlement, maturity_date })
}

} // verus!
