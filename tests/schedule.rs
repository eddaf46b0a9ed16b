use bond_analyzer::{build_curve_dates, coupon_period_months, previous_coupon, BondCalculatorError, Date};

fn ymd(year: i32, month: u32, day: u32) -> Date {
    Date::from_ymd_opt(year, month, day).unwrap()
}

#[test]
fn test_cashflow_dates_gilt() {
    let maturity_date = ymd(2025, 1, 31);
    let settlement_date = ymd(2023, 5, 3);
    let frequency = 2;

    let uk_2025 = build_curve_dates(maturity_date, settlement_date, frequency);

    let predicted = vec![ymd(2023, 7, 31), ymd(2024, 1, 31), ymd(2024, 7, 31), ymd(2025, 1, 31)];
    assert_eq!(uk_2025.unwrap(), predicted);
}

#[test]
fn month_end_clamp_carries_to_later_steps() {
    let curve = build_curve_dates(ymd(2025, 8, 31), ymd(2023, 1, 1), 2).unwrap();
    let expected = vec![
        ymd(2023, 2, 28),
        ymd(2023, 8, 28),
        ymd(2024, 2, 28),
        ymd(2024, 8, 28),
        ymd(2025, 2, 28),
        ymd(2025, 8, 31),
    ];
    assert_eq!(curve, expected);
}

#[test]
fn month_end_clamp_to_leap_february() {
    let curve = build_curve_dates(ymd(2024, 5, 31), ymd(2023, 10, 15), 4).unwrap();
    assert_eq!(curve, vec![ymd(2023, 11, 29), ymd(2024, 2, 29), ymd(2024, 5, 31)]);
}

#[test]
fn month_end_clamp_to_thirty_day_month() {
    let curve = build_curve_dates(ymd(2024, 12, 31), ymd(2024, 1, 1), 4).unwrap();
    assert_eq!(
        curve,
        vec![ymd(2024, 3, 30), ymd(2024, 6, 30), ymd(2024, 9, 30), ymd(2024, 12, 31)]
    );
}

#[test]
fn settlement_on_coupon_date_is_excluded() {
    let curve = build_curve_dates(ymd(2025, 1, 31), ymd(2024, 7, 31), 2).unwrap();
    assert_eq!(curve, vec![ymd(2025, 1, 31)]);
}

#[test]
fn maturity_before_settlement_keeps_only_maturity() {
    let curve = build_curve_dates(ymd(2020, 1, 31), ymd(2021, 1, 1), 2).unwrap();
    assert_eq!(curve, vec![ymd(2020, 1, 31)]);
}

#[test]
fn monthly_and_annual_schedules() {
    let monthly = build_curve_dates(ymd(2024, 3, 31), ymd(2023, 12, 31), 12).unwrap();
    assert_eq!(monthly, vec![ymd(2024, 1, 29), ymd(2024, 2, 29), ymd(2024, 3, 31)]);
    let annual = build_curve_dates(ymd(2024, 2, 29), ymd(2021, 6, 1), 1).unwrap();
    assert_eq!(annual, vec![ymd(2022, 2, 28), ymd(2023, 2, 28), ymd(2024, 2, 29)]);
}

#[test]
fn frequency_not_dividing_twelve_truncates() {
    assert_eq!(coupon_period_months(5), 2);
    assert_eq!(coupon_period_months(2), 6);
    let curve = build_curve_dates(ymd(2024, 12, 15), ymd(2024, 7, 1), 5).unwrap();
    assert_eq!(curve, vec![ymd(2024, 8, 15), ymd(2024, 10, 15), ymd(2024, 12, 15)]);
}

#[test]
fn stepping_below_earliest_year_is_date_error() {
    let r = build_curve_dates(ymd(-262143, 3, 31), ymd(-262143, 1, 1), 2);
    assert_eq!(r, Err(BondCalculatorError::Date(-262143, 3, 31)));
}

#[test]
fn previous_coupon_steps_back_one_period() {
    let p = previous_coupon(&vec![ymd(2020, 7, 31), ymd(2021, 1, 31)], 2).unwrap();
    assert_eq!(p, ymd(2020, 1, 31));
    let q = previous_coupon(&vec![ymd(2021, 5, 31)], 4).unwrap();
    assert_eq!(q, ymd(2021, 2, 28));
}

#[test]
fn previous_coupon_of_empty_schedule() {
    assert_eq!(previous_coupon(&vec![], 2), Err(BondCalculatorError::EmptySchedule));
}

#[test]
fn previous_coupon_out_of_range() {
    let r = previous_coupon(&vec![ymd(-262143, 2, 28)], 2);
    assert_eq!(r, Err(BondCalculatorError::Date(-262143, 2, 28)));
}

#[test]
fn date_validity_and_order() {
    assert!(Date::from_ymd_opt(2023, 2, 29).is_none());
    assert!(Date::from_ymd_opt(2024, 2, 29).is_some());
    assert!(Date::from_ymd_opt(1900, 2, 29).is_none());
    assert!(Date::from_ymd_opt(2000, 2, 29).is_some());
    assert!(Date::from_ymd_opt(2024, 13, 1).is_none());
    assert!(Date::from_ymd_opt(2024, 4, 31).is_none());
    assert!(Date::from_ymd_opt(262143, 1, 1).is_none());
    assert!(ymd(2023, 5, 3).le(&ymd(2023, 5, 3)));
    assert!(ymd(2023, 5, 3).le(&ymd(2023, 6, 1)));
    assert!(!ymd(2024, 1, 1).le(&ymd(2023, 12, 31)));
}
