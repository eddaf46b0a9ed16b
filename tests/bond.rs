use bond_analyzer::{
    bisection_find, get_args, thousandths_to_string, Bond, BondArgs, BondCalculatorError,
    CliError, Date, DayCount, RATE_GRID_TOP,
};

fn ymd(year: i32, month: u32, day: u32) -> Date {
    Date::from_ymd_opt(year, month, day).unwrap()
}

fn args(daycount: &str) -> BondArgs {
    BondArgs {
        daycount: daycount.to_string(),
        frequency: 2,
        settlement_date: ymd(2020, 2, 20),
        maturity_date: ymd(2025, 1, 31),
    }
}

#[test]
fn unknown_daycount_is_refused() {
    let r = Bond::new(args("bogus"));
    assert_eq!(r.unwrap_err(), BondCalculatorError::Daycount { daycount: "bogus".to_string() });
}

#[test]
fn daycount_tags_are_exact() {
    assert!(Bond::new(args("ACT/ACT")).is_err());
    assert!(Bond::new(args(" act/act")).is_err());
    assert!(Bond::new(args("")).is_err());
}

#[test]
fn each_daycount_tag_names_its_convention() {
    let cases = [
        ("nasd30/360", DayCount::Nasd30360),
        ("act/act", DayCount::ActAct),
        ("act360", DayCount::Act360),
        ("act365", DayCount::Act365),
        ("eur30/360", DayCount::Eur30360),
    ];
    for (tag, dc) in cases {
        assert_eq!(Bond::new(args(tag)).unwrap().day_count, dc);
    }
}

#[test]
fn new_bond_builds_calendar() {
    let b = Bond::new(args("act/act")).unwrap();
    assert_eq!(b.cashflow_curve.len(), 10);
    assert_eq!(b.cashflow_curve[0], ymd(2020, 7, 31));
    assert_eq!(b.cashflow_curve[9], ymd(2025, 1, 31));
    assert_eq!(b.previous_coupon, ymd(2020, 1, 31));
    assert_eq!(b.ytm(), None);
}

#[test]
fn new_bond_reports_date_error() {
    let a = BondArgs {
        daycount: "act360".to_string(),
        frequency: 2,
        settlement_date: ymd(-262143, 1, 1),
        maturity_date: ymd(-262143, 3, 31),
    };
    assert_eq!(Bond::new(a).unwrap_err(), BondCalculatorError::Date(-262143, 3, 31));
}

#[test]
fn cashflows_mark_redemption_at_maturity_only() {
    let b = Bond::new(args("act/act")).unwrap();
    let cfs = b.cashflows();
    assert_eq!(cfs.len(), 10);
    for (i, cf) in cfs.iter().enumerate() {
        assert_eq!(cf.date, b.cashflow_curve[i]);
        assert_eq!(cf.redemption, i == 9);
    }
}

#[test]
fn bisection_follows_the_predicate() {
    assert_eq!(bisection_find(|_| true), RATE_GRID_TOP - 1);
    assert_eq!(bisection_find(|_| false), 1);
    // present value above price below grid point 1000: the yield is bracketed there
    assert_eq!(bisection_find(|k| k < 1000), 999);
    assert_eq!(bisection_find(|k| k <= 1000), 1001);
}

#[test]
fn ytm_is_solved_once() {
    let mut b = Bond::new(args("act/act")).unwrap();
    let first = b.solve_ytm(|k| k < 123_456);
    assert_eq!(b.ytm(), Some(first));
    let second = b.solve_ytm(|k| k < 999_999);
    assert_eq!(first, second);
    assert_eq!(b.ytm(), Some(first));
}

#[test]
fn get_args_fills_defaults() {
    let a = get_args(None, 2, None, ymd(2024, 6, 1), ymd(2030, 6, 1)).unwrap();
    assert_eq!(a.daycount, "act/act");
    assert_eq!(a.settlement_date, ymd(2024, 6, 1));
    assert_eq!(a.frequency, 2);
    let b = get_args(
        Some("act360".to_string()),
        4,
        Some(ymd(2023, 1, 2)),
        ymd(2024, 6, 1),
        ymd(2030, 6, 1),
    )
    .unwrap();
    assert_eq!(b.daycount, "act360");
    assert_eq!(b.settlement_date, ymd(2023, 1, 2));
    assert_eq!(b.maturity_date, ymd(2030, 6, 1));
}

#[test]
fn get_args_refuses_bad_values() {
    let today = ymd(2024, 6, 1);
    let bad_day = Date { year: 2023, month: 2, day: 30 };
    assert_eq!(
        get_args(None, 0, None, today, ymd(2030, 1, 1)).unwrap_err(),
        CliError::BadParseError("frequency".to_string())
    );
    assert_eq!(
        get_args(None, 13, None, today, ymd(2030, 1, 1)).unwrap_err(),
        CliError::BadParseError("frequency".to_string())
    );
    assert_eq!(
        get_args(None, 2, Some(bad_day), today, ymd(2030, 1, 1)).unwrap_err(),
        CliError::BadParseError("settlement-date".to_string())
    );
    assert_eq!(
        get_args(None, 2, None, today, bad_day).unwrap_err(),
        CliError::BadParseError("maturity-date".to_string())
    );
}

#[test]
fn thousandths_are_written_shortest() {
    assert_eq!(thousandths_to_string(1396), "1.396");
    assert_eq!(thousandths_to_string(4760), "4.76");
    assert_eq!(thousandths_to_string(4700), "4.7");
    assert_eq!(thousandths_to_string(100000), "100");
    assert_eq!(thousandths_to_string(99974), "99.974");
    assert_eq!(thousandths_to_string(5), "0.005");
    assert_eq!(thousandths_to_string(0), "0");
    assert_eq!(thousandths_to_string(-1500), "-1.5");
    assert_eq!(thousandths_to_string(-42), "-0.042");
}

#[test]
fn unknown_daycount_is_reported_before_any_date() {
    let a = BondArgs {
        daycount: "bogus".to_string(),
        frequency: 2,
        settlement_date: ymd(-262143, 1, 1),
        maturity_date: ymd(-262143, 3, 31),
    };
    assert_eq!(
        Bond::new(a).unwrap_err(),
        BondCalculatorError::Daycount { daycount: "bogus".to_string() }
    );
}
