use vstd::prelude::*;

use crate::date::{date_le, date_lt, days_in_month, lemma_months_back, months_back, ndays_in_month, sub_months, Date};
use crate::error::BondCalculatorError;

verus! {

/// Months between two coupons for a bond paying `frequency` times a year
/// (whole months: a frequency that does not divide 12 truncates).
pub open spec fn period_months(frequency: u32) -> int {
    12int / frequency as int
}

/// `s` is a coupon calendar ending at `maturity`: each date is the one after
/// it stepped back one period (day clamped to its month), and every date but
/// possibly the last lies after `settlement`.
pub open spec fn is_chain(s: Seq<Date>, maturity: Date, settlement: Date, months: int) -> bool {
    &&& s.len() >= 1
    &&& s.last() == maturity
    &&& forall|i: int| 0 <= i < s.len() - 1 ==> months_back(#[trigger] s[i + 1], months) == Some(s[i])
    &&& forall|i: int| 0 <= i < s.len() - 1 ==> date_lt(settlement, #[trigger] s[i])
}

/// The outcome of generating the calendar: the chain of dates stepped back from
/// maturity, stopped at the first date on or before settlement (which is
/// left out), or the error raised at the first step that leaves the
/// supported years.
pub open spec fn schedule_outcome(
    r: Result<Seq<Date>, BondCalculatorError>,
    maturity: Date,
    settlement: Date,
    months: int,
) -> bool {
    match r {
        Ok(s) => is_chain(s, maturity, settlement, months) && match months_back(s[0], months) {
            Some(p) => date_le(p, settlement),
            None => false,
        },
        Err(e) => exists|s: Seq<Date>|
            #![trigger is_chain(s, maturity, settlement, months)]
            is_chain(s, maturity, settlement, months) && months_back(s[0], months) is None
                && e == BondCalculatorError::Date(s[0].year, s[0].month, s[0].day),
    }
}

pub open spec fn ascending(s: Seq<Date>) -> bool {
    forall|i: int, j: int| 0 <= i < j < s.len() ==> date_lt(#[trigger] s[i], #[trigger] s[j])
}

pub open spec fn all_valid(s: Seq<Date>) -> bool {
    forall|i: int| 0 <= i < s.len() ==> (#[trigger] s[i]).wf()
}

/// `d` stepped back `j` periods, one period at a time.
pub open spec fn step_back(d: Date, months: int, j: nat) -> Option<Date>
    decreases j,
{
    if j == 0 {
        Some(d)
    } else {
        match step_back(d, months, (j - 1) as nat) {
            Some(x) => months_back(x, months),
            None => None,
        }
    }
}

proof fn lemma_chain_steps(s: Seq<Date>, maturity: Date, settlement: Date, months: int, j: nat)
    requires
        is_chain(s, maturity, settlement, months),
        j < s.len(),
    ensures
        step_back(maturity, months, j) == Some(s[s.len() - 1 - j]),
    decreases j,
{
    if j > 0 {
        lemma_chain_steps(s, maturity, settlement, months, (j - 1) as nat);
        let i = s.len() - 1 - j;
        assert(months_back(s[i + 1], months) == Some(s[i]));
    }
}

/// The calendar is determined by its terms: two outcomes that both meet
/// `schedule_outcome` for the same maturity, settlement and period are equal.
pub proof fn lemma_schedule_unique(
    r1: Result<Seq<Date>, BondCalculatorError>,
    r2: Result<Seq<Date>, BondCalculatorError>,
    maturity: Date,
    settlement: Date,
    months: int,
)
    requires
        schedule_outcome(r1, maturity, settlement, months),
        schedule_outcome(r2, maturity, settlement, months),
    ensures
        r1 == r2,
{
    let s1 = match r1 {
        Ok(s) => s,
        Err(e) => choose|s: Seq<Date>|
            is_chain(s, maturity, settlement, months) && months_back(s[0], months) is None && e
                == BondCalculatorError::Date(s[0].year, s[0].month, s[0].day),
    };
    let s2 = match r2 {
        Ok(s) => s,
        Err(e) => choose|s: Seq<Date>|
            is_chain(s, maturity, settlement, months) && months_back(s[0], months) is None && e
                == BondCalculatorError::Date(s[0].year, s[0].month, s[0].day),
    };
    lemma_chains_agree(s1, s2, maturity, settlement, months);
    lemma_chains_agree(s2, s1, maturity, settlement, months);
    assert(s1.len() == s2.len());
    assert forall|i: int| 0 <= i < s1.len() implies s1[i] == s2[i] by {
        lemma_chain_steps(s1, maturity, settlement, months, (s1.len() - 1 - i) as nat);
        lemma_chain_steps(s2, maturity, settlement, months, (s2.len() - 1 - i) as nat);
    }
    assert(s1 =~= s2);
}

/// A chain whose first date steps back to settlement or earlier, or to no
/// date at all, is not shorter than any other chain of the same terms.
proof fn lemma_chains_agree(s1: Seq<Date>, s2: Seq<Date>, maturity: Date, settlement: Date, months: int)
    requires
        is_chain(s1, maturity, settlement, months),
        is_chain(s2, maturity, settlement, months),
        match months_back(s1[0], months) {
            Some(p) => date_le(p, settlement),
            None => true,
        },
    ensures
        s2.len() <= s1.len(),
{
    if s2.len() > s1.len() {
        let j = (s1.len() - 1) as nat;
        lemma_chain_steps(s1, maturity, settlement, months, j);
        lemma_chain_steps(s2, maturity, settlement, months, j);
        lemma_chain_steps(s2, maturity, settlement, months, j + 1);
        let k = s2.len() - 1 - j;
        assert(s2[k] == s1[0]);
        assert(months_back(s2[(k - 1) + 1], months) == Some(s2[k - 1]));
        assert(date_lt(settlement, s2[k - 1]));
    }
}

/// Month-end clamping: in a coupon calendar each date keeps the day of the
/// date one period after it, cut down to the length of its own month; the
/// clamped day, not the maturity's, is what the next step back starts from.
pub proof fn lemma_month_end_clamping(s: Seq<Date>, maturity: Date, settlement: Date, months: int, i: int)
    requires
        is_chain(s, maturity, settlement, months),
        0 <= i < s.len() - 1,
    ensures
        s[i].day as int == (if s[i + 1].day > days_in_month(s[i].year as int, s[i].month as int) {
            days_in_month(s[i].year as int, s[i].month as int)
        } else {
            s[i + 1].day as int
        }),
        s[i].day <= s[i + 1].day,
{
    assert(months_back(s[i + 1], months) == Some(s[i]));
}

/// Number of months from one coupon to the next.
pub fn coupon_period_months(frequency: u32) -> (r: u32)
    requires
        1 <= frequency <= 12,
    ensures
        r as int == period_months(frequency),
        1 <= r <= 12,
{
    assert(1 <= 12int / (frequency as int) <= 12) by (nonlinear_arith)
        requires
            1 <= frequency <= 12,
    ;
    12 / frequency
}

/// The coupon dates after `settlement_date` up to and including
/// `maturity_date`, ascending, stepping back `12 / frequency` months at a time
/// from maturity.
pub fn build_curve_dates(maturity_date: Date, settlement_date: Date, frequency: u32) -> (r: Result<
    Vec<Date>,
    BondCalculatorError,
>)
    requires
        maturity_date.wf(),
        settlement_date.wf(),
        1 <= frequency <= 12,
    ensures
        schedule_outcome(
            match r {
                Ok(v) => Ok(v@),
                Err(e) => Err(e),
            },
            maturity_date,
            settlement_date,
            period_months(frequency),
        ),
        r is Ok ==> ascending(r->Ok_0@) && all_valid(r->Ok_0@),
{
    let months = coupon_period_months(frequency);
    let ghost m = months as int;
    let mut curve: Vec<Date> = Vec::new();
    let mut cf_date = maturity_date;
    curve.push(cf_date);
    loop
        invariant
            is_chain(curve@, maturity_date, settlement_date, m),
            cf_date == curve@[0],
            ascending(curve@),
            all_valid(curve@),
            m == months as int,
            m == period_months(frequency),
            1 <= m <= 12,
            settlement_date.wf(),
        ensures
            is_chain(curve@, maturity_date, settlement_date, m),
            ascending(curve@),
            all_valid(curve@),
            match months_back(curve@[0], m) {
                Some(p) => date_le(p, settlement_date),
                None => false,
            },
        decreases cf_date.index() - settlement_date.index(),
    {
        let prev = match sub_months(&cf_date, months) {
            Some(p) => p,
            None => {
                assert(schedule_outcome(Err(BondCalculatorError::Date(cf_date.year, cf_date.month, cf_date.day)), maturity_date, settlement_date, m));
                return Err(BondCalculatorError::Date(cf_date.year, cf_date.month, cf_date.day));
            },
        };
        proof {
            lemma_months_back(cf_date, m);
        }
        if prev.le(&settlement_date) {
            break;
        }
        let year = prev.year;
        let month = prev.month;
        let mut day = prev.day;
        let max_day_in_month = ndays_in_month(year, month);
        if max_day_in_month < prev.day {
            day = max_day_in_month;
        }
        let next = match Date::from_ymd_opt(year, month, day) {
            Some(d) => d,
            None => {
                return Err(BondCalculatorError::Date(year, month, day));
            },
        };
        assert(next == prev);
        let ghost old_curve = curve@;
        curve.insert(0, next);
        proof {
            assert(curve@ =~= seq![next] + old_curve);
            assert forall|i: int| 0 <= i < curve@.len() - 1 implies months_back(
                #[trigger] curve@[i + 1],
                m,
            ) == Some(curve@[i]) by {
                if i > 0 {
                    assert(curve@[i + 1] == old_curve[i]);
                    assert(curve@[i] == old_curve[i - 1]);
                    let k = i - 1;
                    assert(months_back(old_curve[k + 1], m) == Some(old_curve[k]));
                } else {
                    assert(curve@[1] == cf_date);
                    assert(curve@[0] == next);
                }
            }
            assert forall|i: int, j: int| 0 <= i < j < curve@.len() implies date_lt(
                #[trigger] curve@[i],
                #[trigger] curve@[j],
            ) by {
                if i > 0 {
                    assert(curve@[i] == old_curve[i - 1]);
                    assert(curve@[j] == old_curve[j - 1]);
                } else {
                    assert(curve@[j] == old_curve[j - 1]);
                    if j > 1 {
                        assert(date_lt(old_curve[0], old_curve[j - 1]));
                    }
                }
            }
            // the date just added lies after settlement, so the measure stays positive
            assert(date_lt(settlement_date, next));
        }
        cf_date = next;
    }
    Ok(curve)
}

} // verus!
