use vstd::prelude::*;

use crate::date::{date_lt, months_back, sub_months, Date};
use crate::daycount::{convention_of, parse_day_count, DayCount};
use crate::error::BondCalculatorError;
use crate::schedule::{
    all_valid, ascending, build_curve_dates, coupon_period_months, period_months,
    schedule_outcome,
};
use crate::solver::{bisection_find, final_bracket};

verus! {

/// The terms a bond is set up from.
#[derive(Clone, Debug)]
pub struct BondArgs {
    /// Day-count tag, one of `nasd30/360`, `act/act`, `act360`, `act365`, `eur30/360`.
    pub daycount: String,
    /// Coupon payments per year, whole.
    pub frequency: u32,
    pub settlement_date: Date,
    pub maturity_date: Date,
}

impl BondArgs {
    pub open spec fn wf(&self) -> bool {
        &&& self.settlement_date.wf()
        &&& self.maturity_date.wf()
        &&& 1 <= self.frequency <= 12
    }
}

/// One payment of the bond: a coupon, together with the redemption of par on
/// the maturity date.
#[derive(Clone, Copy, Debug, PartialEq, Eq, Structural)]
pub struct Cashflow {
    pub date: Date,
    pub redemption: bool,
}

/// A bond with its coupon calendar, and the yield once it has been solved.
#[derive(Clone, Debug)]
pub struct Bond {
    pub day_count: DayCount,
    pub frequency: u32,
    pub settlement_date: Date,
    pub maturity_date: Date,
    /// Coupon dates after settlement, ascending, ending at maturity.
    pub cashflow_curve: Vec<Date>,
    /// The coupon date one period before the first one of the calendar.
    pub previous_coupon: Date,
    /// The solved yield as a point of the rate grid, once solved.
    pub ytm: Option<u64>,
}

/// The coupon date one period before the first date of `schedule`.
pub open spec fn previous_coupon_outcome(schedule: Seq<Date>, frequency: u32) -> Result<
    Date,
    BondCalculatorError,
> {
    if schedule.len() == 0 {
        Err(BondCalculatorError::EmptySchedule)
    } else {
        match months_back(schedule[0], period_months(frequency)) {
            Some(p) => Ok(p),
            None => Err(
                BondCalculatorError::Date(schedule[0].year, schedule[0].month, schedule[0].day),
            ),
        }
    }
}

/// Start of the coupon period that settlement falls in: one period before
/// the next coupon date, the first of `schedule`.
pub fn previous_coupon(schedule: &Vec<Date>, frequency: u32) -> (r: Result<
    Date,
    BondCalculatorError,
>)
    requires
        all_valid(schedule@),
        1 <= frequency <= 12,
    ensures
        r == previous_coupon_outcome(schedule@, frequency),
{
    if schedule.len() == 0 {
        return Err(BondCalculatorError::EmptySchedule);
    }
    let next_coupon = schedule[0];
    let months = coupon_period_months(frequency);
    match sub_months(&next_coupon, months) {
        Some(p) => Ok(p),
        None => Err(BondCalculatorError::Date(next_coupon.year, next_coupon.month, next_coupon.day)),
    }
}

impl Bond {
    pub open spec fn wf(&self) -> bool {
        let m = period_months(self.frequency);
        &&& self.settlement_date.wf()
        &&& self.maturity_date.wf()
        &&& 1 <= self.frequency <= 12
        &&& schedule_outcome(Ok(self.cashflow_curve@), self.maturity_date, self.settlement_date, m)
        &&& ascending(self.cashflow_curve@)
        &&& all_valid(self.cashflow_curve@)
        &&& months_back(self.cashflow_curve@[0], m) == Some(self.previous_coupon)
    }

    /// Everything but the cached yield agrees.
    pub open spec fn same_terms(&self, other: Bond) -> bool {
        &&& self.day_count == other.day_count
        &&& self.frequency == other.frequency
        &&& self.settlement_date == other.settlement_date
        &&& self.maturity_date == other.maturity_date
        &&& self.cashflow_curve@ == other.cashflow_curve@
        &&& self.previous_coupon == other.previous_coupon
    }

    /// Sets the bond up: reads the day-count tag, then generates the coupon
    /// calendar and the previous coupon date. An unknown tag fails before any
    /// date is generated.
    pub fn new(args: BondArgs) -> (r: Result<Bond, BondCalculatorError>)
        requires
            args.wf(),
        ensures
            convention_of(args.daycount@) is None ==> r == Err::<Bond, BondCalculatorError>(
                BondCalculatorError::Daycount { daycount: args.daycount },
            ),
            convention_of(args.daycount@) is Some ==> match r {
                Ok(b) => {
                    &&& b.wf()
                    &&& Some(b.day_count) == convention_of(args.daycount@)
                    &&& b.frequency == args.frequency
                    &&& b.settlement_date == args.settlement_date
                    &&& b.maturity_date == args.maturity_date
                    &&& b.ytm is None
                },
                Err(e) => schedule_outcome(
                    Err(e),
                    args.maturity_date,
                    args.settlement_date,
                    period_months(args.frequency),
                ),
            },
    {
        let day_count = match parse_day_count(args.daycount.as_str()) {
            Some(d) => d,
            None => {
                return Err(BondCalculatorError::Daycount { daycount: args.daycount });
            },
        };
        let cashflow_curve = match build_curve_dates(
            args.maturity_date,
            args.settlement_date,
            args.frequency,
        ) {
            Ok(c) => c,
            Err(e) => {
                return Err(e);
            },
        };
        let previous = match previous_coupon(&cashflow_curve, args.frequency) {
            Ok(p) => p,
            Err(e) => {
                // a generated calendar always has a date one period before its first
                assert(false);
                return Err(e);
            },
        };
        Ok(
            Bond {
                day_count,
                frequency: args.frequency,
                settlement_date: args.settlement_date,
                maturity_date: args.maturity_date,
                cashflow_curve,
                previous_coupon: previous,
                ytm: None,
            },
        )
    }

    /// The payments of the bond in date order: one per coupon date, the last,
    /// on maturity, also redeeming par.
    pub fn cashflows(&self) -> (r: Vec<Cashflow>)
        requires
            self.wf(),
        ensures
            r@.len() == self.cashflow_curve@.len(),
            forall|i: int|
                0 <= i < r@.len() ==> (#[trigger] r@[i]).date == self.cashflow_curve@[i]
                    && r@[i].redemption == (r@[i].date == self.maturity_date),
            forall|i: int| 0 <= i < r@.len() ==> (#[trigger] r@[i]).redemption == (i == r@.len() - 1),
    {
        let mut r: Vec<Cashflow> = Vec::new();
        let n = self.cashflow_curve.len();
        let mut i: usize = 0;
        while i < n
            invariant
                self.wf(),
                n == self.cashflow_curve@.len(),
                i <= n,
                r@.len() == i,
                forall|j: int|
                    0 <= j < i ==> (#[trigger] r@[j]).date == self.cashflow_curve@[j]
                        && r@[j].redemption == (r@[j].date == self.maturity_date)
                        && r@[j].redemption == (j == n - 1),
            decreases n - i,
        {
            let d = self.cashflow_curve[i];
            let redemption = d == self.maturity_date;
            proof {
                let s = self.cashflow_curve@;
                assert(s.last() == self.maturity_date);
                if i + 1 < n {
                    assert(date_lt(s[i as int], s[n - 1]));
                }
            }
            r.push(Cashflow { date: d, redemption });
            i = i + 1;
        }
        r
    }

    /// The solved yield, as a point of the rate grid, if solved already.
    pub fn ytm(&self) -> (r: Option<u64>)
        ensures
            r == self.ytm,
    {
        self.ytm
    }

    /// The yield of the bond as a point of the rate grid: the cached one if
    /// it was solved before, else the result of `bisection_find`, which is
    /// then kept.
    pub fn solve_ytm<F: Fn(u64) -> bool>(&mut self, pv_above_price: F) -> (r: u64)
        requires
            forall|k: u64| pv_above_price.requires((k,)),
        ensures
            solve_step(*old(self), *final(self), r),
            old(self).ytm is None ==> r >= 1 && final_bracket(pv_above_price, r - 1),
    {
        match self.ytm {
            Some(k) => k,
            None => {
                let k = bisection_find(pv_above_price);
                self.ytm = Some(k);
                k
            },
        }
    }
}

/// What one request for the yield does: the bond keeps its terms, holds the
/// yield returned, and a yield solved before is returned unchanged.
pub open spec fn solve_step(before: Bond, after: Bond, r: u64) -> bool {
    &&& after.same_terms(before)
    &&& after.ytm == Some(r)
    &&& before.ytm is Some ==> before.ytm == Some(r) && after == before
}

/// Asking for the yield twice gives the same value, and the second request
/// leaves the bond as the first one left it.
pub proof fn lemma_ytm_idempotent(b0: Bond, b1: Bond, b2: Bond, r1: u64, r2: u64)
    requires
        solve_step(b0, b1, r1),
        solve_step(b1, b2, r2),
    ensures
        r1 == r2,
        b2 == b1,
{
}

} // verus!
