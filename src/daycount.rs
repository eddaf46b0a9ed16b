use vstd::prelude::*;

verus! {

/// The day-count conventions a bond's accrual can follow.
#[derive(Clone, Copy, Debug, PartialEq, Eq, Structural)]
pub enum DayCount {
    /// NASD 30/360 (tag `nasd30/360`).
    Nasd30360,
    /// Actual/Actual (tag `act/act`).
    ActAct,
    /// Actual/360 (tag `act360`).
    Act360,
    /// Actual/365 (tag `act365`).
    Act365,
    /// European 30/360 (tag `eur30/360`).
    Eur30360,
}

/// The convention a tag names, if any; tags match exactly.
pub open spec fn convention_of(tag: Seq<char>) -> Option<DayCount> {
    if tag == "nasd30/360"@ {
        Some(DayCount::Nasd30360)
    } else if tag == "act/act"@ {
        Some(DayCount::ActAct)
    } else if tag == "act360"@ {
        Some(DayCount::Act360)
    } else if tag == "act365"@ {
        Some(DayCount::Act365)
    } else if tag == "eur30/360"@ {
        Some(DayCount::Eur30360)
    } else {
        None
    }
}

/// Relies on yearfrac's `DayCountConvention::from_str`, which accepts exactly
/// the five tags `nasd30/360`, `act/act`, `act360`, `act365`, `eur30/360`.
#[verifier::external_body]
pub(crate) fn parse_day_count(tag: &str) -> (r: Option<DayCount>)
    ensures
        r == convention_of(tag@),
{
    match yearfrac::DayCountConvention::from_str(tag) {
        Ok(yearfrac::DayCountConvention::US30360) => Some(DayCount::Nasd30360),
        Ok(yearfrac::DayCountConvention::ActAct) => Some(DayCount::ActAct),
        Ok(yearfrac::DayCountConvention::Act360) => Some(DayCount::Act360),
        Ok(yearfrac::DayCountConvention::Act365) => Some(DayCount::Act365),
        Ok(yearfrac::DayCountConvention::EU30360) => Some(DayCount::Eur30360),
        Err(_) => None,
    }
}

} // verus!
