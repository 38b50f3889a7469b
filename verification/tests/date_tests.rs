use sub_manager_lite::cron::{
    add_months, add_weeks, add_years, catch_up, compute_next_due, next_due_is_defined,
    plan_renewals, CatchUp, DueRow, RenewalError, MAX_CATCHUP_ITERATIONS,
};
use sub_manager_lite::date::{
    date_text, is_leap_year, month_length, today, Date, MAX_YEAR, MIN_YEAR,
};
use sub_manager_lite::models::BillingCycle;

fn d(y: i32, m: u32, day: u32) -> Date {
    Date::new(y, m, day).expect("valid date")
}

#[test]
fn calendar_validity() {
    assert!(Date::new(2024, 2, 29).is_some());
    assert!(Date::new(2023, 2, 29).is_none());
    assert!(Date::new(1900, 2, 29).is_none());
    assert!(Date::new(2000, 2, 29).is_some());
    assert!(Date::new(2024, 4, 31).is_none());
    assert!(Date::new(2024, 13, 1).is_none());
    assert!(Date::new(2024, 1, 0).is_none());
    assert!(Date::new(MAX_YEAR, 12, 31).is_some());
    assert!(Date::new(MAX_YEAR + 1, 1, 1).is_none());
    assert!(Date::new(MIN_YEAR, 1, 1).is_some());
    assert!(Date::new(MIN_YEAR - 1, 12, 31).is_none());
    assert!(is_leap_year(0) && is_leap_year(-4) && !is_leap_year(-1) && !is_leap_year(2100));
    assert_eq!(month_length(2023, 2), 28);
    assert_eq!(month_length(2024, 2), 29);
    assert_eq!(month_length(2024, 11), 30);
}

#[test]
fn day_numbers_count_days_from_year_zero() {
    assert_eq!(d(0, 1, 1).ordinal_number(), 0);
    assert_eq!(d(1, 1, 1).ordinal_number(), 366);
    assert_eq!(d(1970, 1, 1).ordinal_number(), 719_528);
    assert_eq!(d(-1, 12, 31).ordinal_number(), -1);
}

#[test]
fn dates_parse_and_compare() {
    assert_eq!(Date::parse("2099-01-01"), Some(d(2099, 1, 1)));
    assert_eq!(Date::parse("2024-02-30"), None);
    assert_eq!(Date::parse("01/02/2024"), None);
    assert_eq!(Date::parse(""), None);
    assert!(d(2024, 1, 31).is_before(&d(2024, 2, 1)));
    assert!(d(2024, 2, 1).on_or_before(&d(2024, 2, 1)));
    assert!(!d(2025, 1, 1).on_or_before(&d(2024, 12, 31)));
    assert_eq!(d(2024, 3, 1).sub_days(1), d(2024, 2, 29));
    assert_eq!(d(2024, 12, 31).add_days(1), d(2025, 1, 1));
}

#[test]
fn months_clamp_to_the_target_month() {
    assert_eq!(add_months(d(2024, 1, 31), 1), d(2024, 2, 29));
    assert_eq!(add_months(d(2023, 1, 31), 1), d(2023, 2, 28));
    assert_eq!(add_months(d(2024, 12, 15), 1), d(2025, 1, 15));
    assert_eq!(add_months(d(2024, 3, 31), -1), d(2024, 2, 29));
    assert_eq!(add_months(d(2024, 5, 31), 13), d(2025, 6, 30));
    assert_eq!(add_months(d(2024, 5, 10), 0), d(2024, 5, 10));
    assert_eq!(add_months(d(0, 1, 15), -1), d(-1, 12, 15));
}

#[test]
fn years_and_weeks() {
    assert_eq!(add_years(d(2024, 2, 29), 1), d(2025, 2, 28));
    assert_eq!(add_years(d(2024, 2, 29), 4), d(2028, 2, 29));
    assert_eq!(add_weeks(d(2024, 12, 25), 1), d(2025, 1, 1));
    assert_eq!(add_weeks(d(2024, 3, 7), -1), d(2024, 2, 29));
}

#[test]
fn next_due_date_per_cycle() {
    let base = d(2024, 1, 31);
    assert_eq!(compute_next_due(base, BillingCycle::Monthly, 1), d(2024, 3, 1));
    assert_eq!(compute_next_due(base, BillingCycle::Monthly, 0), d(2024, 3, 1));
    assert_eq!(compute_next_due(base, BillingCycle::Monthly, -5), d(2024, 3, 1));
    assert_eq!(compute_next_due(base, BillingCycle::Monthly, 3), d(2024, 4, 30));
    assert_eq!(compute_next_due(base, BillingCycle::Yearly, 1), d(2025, 1, 30));
    assert_eq!(compute_next_due(base, BillingCycle::Yearly, 2), d(2026, 1, 30));
    assert_eq!(compute_next_due(base, BillingCycle::Weekly, 1), d(2024, 2, 7));
    assert_eq!(compute_next_due(base, BillingCycle::Weekly, 2), d(2024, 2, 14));
    assert!(next_due_is_defined(base, BillingCycle::Monthly, 1));
    assert!(!next_due_is_defined(base, BillingCycle::Monthly, i32::MAX as i64));
    assert!(!next_due_is_defined(base, BillingCycle::Yearly, 1 << 28));
    assert!(!next_due_is_defined(base, BillingCycle::Weekly, i64::MAX));
    assert!(!next_due_is_defined(d(MAX_YEAR, 12, 2), BillingCycle::Monthly, 1));
    assert_eq!(
        compute_next_due(d(MAX_YEAR, 12, 1), BillingCycle::Monthly, 1),
        d(MAX_YEAR, 12, 31)
    );
    assert!(next_due_is_defined(d(MAX_YEAR, 12, 1), BillingCycle::Weekly, 1));
    assert_eq!(
        compute_next_due(d(MAX_YEAR, 12, 1), BillingCycle::Weekly, 1),
        d(MAX_YEAR, 12, 8)
    );
}

#[test]
fn catch_up_passes_today() {
    let today = d(2024, 6, 15);
    assert_eq!(
        catch_up(d(2024, 6, 1), BillingCycle::Weekly, 1, today),
        CatchUp::Renewed(d(2024, 6, 22))
    );
    assert_eq!(
        catch_up(d(2024, 6, 15), BillingCycle::Monthly, 1, today),
        CatchUp::Renewed(d(2024, 7, 15))
    );
    assert_eq!(
        catch_up(d(2024, 4, 1), BillingCycle::Monthly, 1, today),
        CatchUp::Renewed(d(2024, 6, 30))
    );
    assert_eq!(
        catch_up(d(2024, 6, 16), BillingCycle::Monthly, 1, today),
        CatchUp::Renewed(d(2024, 6, 16))
    );
    assert_eq!(
        catch_up(d(1700, 1, 1), BillingCycle::Weekly, 1, today),
        CatchUp::StillDue
    );
    assert_eq!(MAX_CATCHUP_ITERATIONS, 10000);
    assert_eq!(
        catch_up(d(2024, 6, 1), BillingCycle::Monthly, i32::MAX as i64, today),
        CatchUp::OutOfRange
    );
}

fn row(id: i64, ending: &str, cycle: &str, interval: i64) -> DueRow {
    DueRow {
        id,
        ending_date: ending.to_string(),
        billing_cycle: cycle.to_string(),
        billing_interval: interval,
    }
}

#[test]
fn renewal_plan_moves_due_dates_past_today() {
    let today = today();
    let two_weeks_ago = today.sub_days(14);
    let ending = format!(
        "{:04}-{:02}-{:02}",
        two_weeks_ago.year, two_weeks_ago.month, two_weeks_ago.day
    );
    let plan = plan_renewals(today, &vec![row(2, &ending, "WEEKLY", 1)]).unwrap();
    assert_eq!(plan.len(), 1);
    assert_eq!(plan[0].0, 2);
    assert!(today.is_before(&plan[0].1));
    assert!(plan[0].1.on_or_before(&today.add_days(7)));
}

#[test]
fn renewal_plan_refuses_malformed_rows() {
    let today = d(2024, 6, 15);
    let rows = vec![
        row(1, "2024-06-01", "MONTHLY", 1),
        row(2, "2024-06-01", "DAILY", 1),
        row(3, "bad", "MONTHLY", 1),
    ];
    assert_eq!(
        plan_renewals(today, &rows),
        Err(RenewalError::InvalidBillingCycle { id: 2 })
    );
    assert_eq!(RenewalError::InvalidBillingCycle { id: 2 }.column(), 2);
    let rows = vec![row(1, "2024-06-01", "MONTHLY", 1), row(3, "bad", "MONTHLY", 1)];
    assert_eq!(
        plan_renewals(today, &rows),
        Err(RenewalError::InvalidEndingDate { id: 3 })
    );
    assert_eq!(RenewalError::InvalidEndingDate { id: 3 }.column(), 1);
    let rows = vec![
        row(1, "2024-06-01", "MONTHLY", 1),
        row(4, "1700-01-01", "WEEKLY", 1),
        row(5, "2024-06-15", "YEARLY", 1),
    ];
    assert_eq!(
        plan_renewals(today, &rows),
        Ok(vec![(1, d(2024, 7, 1)), (5, d(2025, 6, 15))])
    );
}

#[test]
fn dates_are_written_as_chrono_writes_them() {
    for (y, m, day) in [
        (2024, 2, 9),
        (999, 12, 31),
        (0, 1, 1),
        (9999, 1, 1),
        (10000, 3, 4),
        (-1, 5, 6),
        (-12345, 7, 8),
        (MAX_YEAR, 12, 31),
        (MIN_YEAR, 1, 1),
    ] {
        let expected = chrono::NaiveDate::from_ymd_opt(y, m, day)
            .unwrap()
            .format("%Y-%m-%d")
            .to_string();
        assert_eq!(date_text(d(y, m, day)), expected);
    }
    assert_eq!(date_text(d(2024, 2, 9)), "2024-02-09");
}

#[test]
fn today_is_a_valid_date() {
    let t = today();
    assert_eq!(Date::new(t.year, t.month, t.day), Some(t));
}
