//! Billing calendar arithmetic and the renewal of subscriptions that have
//! come due.

use vstd::prelude::*;

use crate::date::{
    chrono_parse_ymd, days_in_month, first_day_number, last_day_number,
    lemma_day_number_injective, lemma_day_number_order, lemma_month_length, lemma_year_length,
    Date, MAX_YEAR, MIN_YEAR,
};
use crate::models::{cycle_from_name, BillingCycle};

verus! {

/// How many billing periods the renewal of one subscription may step over
/// before it gives up on catching up with today.
pub const MAX_CATCHUP_ITERATIONS: usize = 10000;

/// The month of a date counted from January of year 0.
pub open spec fn month_index(d: Date) -> int {
    d.year * 12 + d.month - 1
}

/// Whether moving `d` by `months` months stays within the calendar, including
/// the first day of the month after the target, which the computation visits.
pub open spec fn add_months_defined(d: Date, months: int) -> bool {
    MIN_YEAR * 12 <= month_index(d) + months <= MAX_YEAR * 12 + 10
}

/// `d` moved by `months` months, its day clamped to the length of the
/// target month.
pub open spec fn add_months_spec(d: Date, months: int) -> Date {
    let t = month_index(d) + months;
    let y = t / 12;
    let m = t % 12 + 1;
    let last = days_in_month(y, m);
    Date { year: y as i32, month: m as u32, day: (if d.day <= last { d.day as int } else { last }) as u32 }
}

/// `d` moved by `months` months. The day of the month is kept where the
/// target month has it, and is the target month's last day otherwise.
pub fn add_months(d: Date, months: i32) -> (r: Date)
    requires
        d.valid(),
        add_months_defined(d, months as int),
    ensures
        r == add_months_spec(d, months as int),
        r.valid(),
{
    let total = d.year * 12 + (d.month - 1) as i32 + months;
    let year = total.checked_div_euclid(12).unwrap();
    let month0 = total.checked_rem_euclid(12).unwrap() as u32;
    let month = month0 + 1;
    let next = if month == 12 {
        Date::new(year + 1, 1, 1)
    } else {
        Date::new(year, month + 1, 1)
    };
    let first_of_next = next.unwrap();
    let last = first_of_next.sub_days(1);
    proof {
        let end = Date { year, month, day: days_in_month(year as int, month as int) as u32 };
        if month == 12 {
            lemma_year_length(year as int);
        } else {
            lemma_month_length(year as int, month as int);
        }
        assert(end.day_number() == last.day_number());
        lemma_day_number_injective(end, last);
    }
    let last_day = last.day;
    let day = if d.day < last_day { d.day } else { last_day };
    Date::new(year, month, day).unwrap()
}

/// Whether moving `d` by `years` years stays within the calendar.
pub open spec fn add_years_defined(d: Date, years: int) -> bool {
    &&& i32::MIN <= years * 12 <= i32::MAX
    &&& add_months_defined(d, years * 12)
}

/// `d` moved by `years` years: twelve months per year.
pub fn add_years(d: Date, years: i32) -> (r: Date)
    requires
        d.valid(),
        add_years_defined(d, years as int),
    ensures
        r == add_months_spec(d, years * 12),
        r.valid(),
{
    add_months(d, years * 12)
}

/// Whether moving `d` by `weeks` weeks stays within the calendar.
pub open spec fn add_weeks_defined(d: Date, weeks: int) -> bool {
    first_day_number() <= d.day_number() + 7 * weeks <= last_day_number()
}

/// `d` moved by `weeks` weeks.
pub fn add_weeks(d: Date, weeks: i64) -> (r: Date)
    requires
        d.valid(),
        add_weeks_defined(d, weeks as int),
    ensures
        r.valid(),
        r.day_number() == d.day_number() + 7 * weeks,
{
    d.add_days(weeks * 7)
}

/// The billing interval in effect: intervals below one count as one.
pub open spec fn effective_interval(interval: i64) -> i64 {
    if interval < 1 { 1 } else { interval }
}

/// The length of one billing period in days: 30 days per month, 365 per
/// year and 7 per week, times the interval in effect.
pub open spec fn period_days(cycle: BillingCycle, interval: i64) -> int {
    let n = effective_interval(interval) as int;
    match cycle {
        BillingCycle::Monthly => 30 * n,
        BillingCycle::Yearly => 365 * n,
        BillingCycle::Weekly => 7 * n,
    }
}

/// Whether the due date after `ending` lies within the calendar.
pub open spec fn next_due_defined(ending: Date, cycle: BillingCycle, interval: i64) -> bool {
    first_day_number() <= ending.day_number() + period_days(cycle, interval) <= last_day_number()
}

/// The valid date `days` days after `d`.
pub open spec fn days_later(d: Date, days: int) -> Date {
    choose|r: Date| r.valid() && r.day_number() == d.day_number() + days
}

/// The due date one billing period after `ending`.
pub open spec fn next_due_spec(ending: Date, cycle: BillingCycle, interval: i64) -> Date {
    days_later(ending, period_days(cycle, interval))
}

/// Days after `a` on which `b` falls.
proof fn lemma_later_by_days(a: Date, b: Date)
    requires
        a.valid(),
        b.valid(),
        b.day_number() > a.day_number(),
    ensures
        a.before(b),
{
    if !a.before(b) {
        if b.before(a) {
            lemma_day_number_order(b, a);
        } else {
            lemma_day_number_injective(a, b);
        }
    }
}

/// Whether `a` falls on or before `b`, by day numbers.
proof fn lemma_on_or_before_by_days(a: Date, b: Date)
    requires
        a.valid(),
        b.valid(),
        !b.before(a),
    ensures
        a.day_number() <= b.day_number(),
{
    if a.before(b) {
        lemma_day_number_order(a, b);
    } else {
        lemma_day_number_injective(a, b);
    }
}

/// The due date one billing period after `ending`: a monthly subscription
/// renews for 30 days, a yearly one for 365 days and a weekly one for 7 days,
/// each times the billing interval; an interval below one counts as one.
pub fn compute_next_due(ending: Date, cycle: BillingCycle, interval: i64) -> (r: Date)
    requires
        ending.valid(),
        next_due_defined(ending, cycle, interval),
    ensures
        r.valid(),
        r == next_due_spec(ending, cycle, interval),
        r.day_number() == ending.day_number() + period_days(cycle, interval),
        ending.before(r),
{
    let n = if interval < 1 { 1 } else { interval };
    let r = match cycle {
        BillingCycle::Monthly => ending.add_days(n * 30),
        BillingCycle::Yearly => ending.add_days(n * 365),
        BillingCycle::Weekly => add_weeks(ending, n),
    };
    proof {
        let w = days_later(ending, period_days(cycle, interval));
        assert(r.valid() && r.day_number() == ending.day_number() + period_days(cycle, interval));
        lemma_day_number_injective(r, w);
        lemma_later_by_days(ending, r);
    }
    r
}

/// Moving a date forward by a positive number of months lands on a later
/// date, even when the day is clamped to a shorter month.
pub proof fn lemma_add_months_advances(d: Date, months: int)
    requires
        d.valid(),
        months >= 1,
        add_months_defined(d, months),
    ensures
        d.before(add_months_spec(d, months)),
{
}

/// Whether the due date one period after `ending` lies within the calendar.
pub fn next_due_is_defined(ending: Date, cycle: BillingCycle, interval: i64) -> (r: bool)
    requires
        ending.valid(),
    ensures
        r == next_due_defined(ending, cycle, interval),
{
    let n = if interval < 1 { 1 } else { interval };
    let per: i128 = match cycle {
        BillingCycle::Monthly => 30,
        BillingCycle::Yearly => 365,
        BillingCycle::Weekly => 7,
    };
    let first = Date { year: MIN_YEAR, month: 1, day: 1 }.ordinal_number();
    let last = Date { year: MAX_YEAR, month: 12, day: 31 }.ordinal_number();
    let target = ending.ordinal_number() as i128 + per * (n as i128);
    first as i128 <= target && target <= last as i128
}

/// Where catching a due date up with today ends.
#[derive(Debug, Clone, Copy, PartialEq, Eq, Structural)]
pub enum CatchUp {
    /// The first due date after today.
    Renewed(Date),
    /// Today was not passed within `MAX_CATCHUP_ITERATIONS` periods.
    StillDue,
    /// The next period would leave the calendar.
    OutOfRange,
}

/// Stepping `d` forward one period at a time, at most `steps_left` times,
/// until it falls after `today`.
pub open spec fn catch_up_spec(
    d: Date,
    cycle: BillingCycle,
    interval: i64,
    today: Date,
    steps_left: nat,
) -> CatchUp
    decreases steps_left,
{
    if today.before(d) {
        CatchUp::Renewed(d)
    } else if steps_left == 0 {
        CatchUp::StillDue
    } else if !next_due_defined(d, cycle, interval) {
        CatchUp::OutOfRange
    } else {
        catch_up_spec(next_due_spec(d, cycle, interval), cycle, interval, today, (steps_left - 1) as nat)
    }
}

/// The day number of the `k`-th due date of a schedule that starts on day
/// `start` and advances by `period` days.
pub open spec fn cycle_day(start: int, period: int, k: int) -> int {
    start + k * period
}

/// `x` is the first date of the billing schedule of `ending` (period
/// `period` days) that falls after `today`: it lies on the schedule, after
/// today, and the schedule date before it, if any, is not after today.
pub open spec fn first_cycle_date_after(ending: Date, period: int, today: Date, x: Date) -> bool {
    &&& x.valid()
    &&& today.before(x)
    &&& exists|k: int|
        k >= 0 && x.day_number() == #[trigger] cycle_day(ending.day_number(), period, k) && (k >= 1
            ==> cycle_day(ending.day_number(), period, k - 1) <= today.day_number())
}

/// Steps the due date `ending` forward one billing period at a time until it
/// falls after `today`, giving up after `MAX_CATCHUP_ITERATIONS` periods.
/// Where the next period would leave the calendar it stops with
/// `OutOfRange`.
pub fn catch_up(ending: Date, cycle: BillingCycle, interval: i64, today: Date) -> (r: CatchUp)
    requires
        ending.valid(),
        today.valid(),
    ensures
        r == catch_up_spec(ending, cycle, interval, today, MAX_CATCHUP_ITERATIONS as nat),
        r matches CatchUp::Renewed(n) ==> first_cycle_date_after(
            ending,
            period_days(cycle, interval),
            today,
            n,
        ),
{
    let mut new_date = ending;
    let mut steps: usize = 0;
    let ghost p = period_days(cycle, interval);
    let ghost mut k: int = 0;
    while new_date.on_or_before(&today) && steps < MAX_CATCHUP_ITERATIONS
        invariant
            new_date.valid(),
            today.valid(),
            steps <= MAX_CATCHUP_ITERATIONS,
            p == period_days(cycle, interval),
            k >= 0,
            new_date.day_number() == cycle_day(ending.day_number(), p, k),
            k >= 1 ==> cycle_day(ending.day_number(), p, k - 1) <= today.day_number(),
            catch_up_spec(new_date, cycle, interval, today, (MAX_CATCHUP_ITERATIONS - steps) as nat)
                == catch_up_spec(ending, cycle, interval, today, MAX_CATCHUP_ITERATIONS as nat),
        decreases MAX_CATCHUP_ITERATIONS - steps,
    {
        if !next_due_is_defined(new_date, cycle, interval) {
            return CatchUp::OutOfRange;
        }
        proof {
            lemma_on_or_before_by_days(new_date, today);
            assert(cycle_day(ending.day_number(), p, k + 1) == cycle_day(ending.day_number(), p, k)
                + p) by (nonlinear_arith);
        }
        new_date = compute_next_due(new_date, cycle, interval);
        steps += 1;
        proof {
            k = k + 1;
        }
    }
    if new_date.on_or_before(&today) {
        CatchUp::StillDue
    } else {
        proof {
            assert(new_date.day_number() == cycle_day(ending.day_number(), p, k));
        }
        CatchUp::Renewed(new_date)
    }
}

/// A stored subscription that is active, renews automatically and has come
/// due, as read for renewal.
#[derive(Debug, Clone)]
pub struct DueRow {
    pub id: i64,
    pub ending_date: String,
    pub billing_cycle: String,
    pub billing_interval: i64,
}

/// Why a batch of renewals was refused.
#[derive(Debug, Clone, Copy, PartialEq, Eq, Structural)]
pub enum RenewalError {
    /// The stored billing cycle is not one of the stored names.
    InvalidBillingCycle { id: i64 },
    /// The stored ending date does not parse as `%Y-%m-%d`.
    InvalidEndingDate { id: i64 },
    /// Renewing the subscription would step past the last representable date.
    OutOfRange { id: i64 },
}

impl RenewalError {
    /// The column of the subscription table that holds the defect.
    pub fn column(&self) -> (r: usize)
        ensures
            r == (match self {
                RenewalError::InvalidBillingCycle { .. } => 2usize,
                _ => 1usize,
            }),
    {
        match self {
            RenewalError::InvalidBillingCycle { .. } => 2,
            _ => 1,
        }
    }
}

/// What renewing one due subscription gives: a new ending date, nothing
/// (it could not be brought past today), or the reason the batch fails.
pub open spec fn row_renewal(today: Date, row: DueRow) -> Result<Option<Date>, RenewalError> {
    match cycle_from_name(row.billing_cycle@) {
        None => Err(RenewalError::InvalidBillingCycle { id: row.id }),
        Some(cycle) => match chrono_parse_ymd(row.ending_date@) {
            None => Err(RenewalError::InvalidEndingDate { id: row.id }),
            Some(ending) => match catch_up_spec(
                ending,
                cycle,
                row.billing_interval,
                today,
                MAX_CATCHUP_ITERATIONS as nat,
            ) {
                CatchUp::Renewed(n) => Ok(Some(n)),
                CatchUp::StillDue => Ok(None),
                CatchUp::OutOfRange => Err(RenewalError::OutOfRange { id: row.id }),
            },
        },
    }
}

/// The renewals of a batch of due rows, in order, or the first row's defect.
pub open spec fn renewal_plan(today: Date, rows: Seq<DueRow>) -> Result<
    Seq<(i64, Date)>,
    RenewalError,
>
    decreases rows.len(),
{
    if rows.len() == 0 {
        Ok(Seq::empty())
    } else {
        match renewal_plan(today, rows.drop_last()) {
            Err(e) => Err(e),
            Ok(acc) => match row_renewal(today, rows.last()) {
                Err(e) => Err(e),
                Ok(None) => Ok(acc),
                Ok(Some(n)) => Ok(acc.push((rows.last().id, n))),
            },
        }
    }
}

/// The planned renewal `entry` comes from `row`: same id, and its date is
/// the first date of the row's billing schedule after `today`.
pub open spec fn renewed_to(entry: (i64, Date), row: DueRow, today: Date) -> bool {
    &&& entry.0 == row.id
    &&& cycle_from_name(row.billing_cycle@) matches Some(cycle)
    &&& chrono_parse_ymd(row.ending_date@) matches Some(ending)
    &&& first_cycle_date_after(ending, period_days(cycle, row.billing_interval), today, entry.1)
}

/// The date to which catching up renews `row`, if its cycle and ending date
/// read back and the catch-up passes today.
pub open spec fn catch_up_target(row: DueRow, today: Date) -> Option<Date> {
    match cycle_from_name(row.billing_cycle@) {
        Some(cycle) => match chrono_parse_ymd(row.ending_date@) {
            Some(ending) => match catch_up_spec(
                ending,
                cycle,
                row.billing_interval,
                today,
                MAX_CATCHUP_ITERATIONS as nat,
            ) {
                CatchUp::Renewed(n) => Some(n),
                _ => None,
            },
            None => None,
        },
        None => None,
    }
}

/// A successful plan is complete: every row whose cycle and ending date
/// read back and whose catch-up passes today is in the plan, with its id and
/// the date the catch-up reached, whatever its billing interval.
pub proof fn lemma_renewal_plan_complete(today: Date, rows: Seq<DueRow>)
    ensures
        renewal_plan(today, rows) is Ok ==> forall|j: int|
            0 <= j < rows.len() && (#[trigger] catch_up_target(rows[j], today)) is Some
                ==> renewal_plan(today, rows)->Ok_0.contains(
                (rows[j].id, catch_up_target(rows[j], today)->Some_0),
            ),
    decreases rows.len(),
{
    if rows.len() > 0 {
        let init = rows.drop_last();
        lemma_renewal_plan_complete(today, init);
        if let Ok(v) = renewal_plan(today, rows) {
            let acc = renewal_plan(today, init)->Ok_0;
            assert forall|j: int|
                0 <= j < rows.len() && (#[trigger] catch_up_target(rows[j], today)) is Some
                    implies v.contains((rows[j].id, catch_up_target(rows[j], today)->Some_0)) by {
                let n = catch_up_target(rows[j], today)->Some_0;
                if j < rows.len() - 1 {
                    assert(init[j] == rows[j]);
                    assert(catch_up_target(init[j], today) == Some(n));
                    assert(acc.contains((rows[j].id, n)));
                    let k = choose|k: int| 0 <= k < acc.len() && acc[k] == (rows[j].id, n);
                    if v != acc {
                        assert(v[k] == acc[k]);
                    }
                } else {
                    assert(rows[j] == rows.last());
                    assert(v[v.len() - 1] == (rows[j].id, n));
                }
            }
        }
    }
}

/// Once a prefix of the batch fails, the whole batch fails the same way.
pub proof fn lemma_renewal_error_persists(today: Date, rows: Seq<DueRow>, k: int)
    requires
        0 <= k <= rows.len(),
        renewal_plan(today, rows.take(k)) is Err,
    ensures
        renewal_plan(today, rows) == renewal_plan(today, rows.take(k)),
    decreases rows.len() - k,
{
    if k < rows.len() {
        assert(rows.take(k + 1).drop_last() == rows.take(k));
        lemma_renewal_error_persists(today, rows, k + 1);
    } else {
        assert(rows.take(k) == rows);
    }
}

/// Plans the renewal of the active, auto-renewing subscriptions that have
/// come due: each one's ending date is moved forward by whole billing periods
/// until it falls after `today`. Rows that do not get past today within
/// `MAX_CATCHUP_ITERATIONS` periods are left alone. A row with an unknown
/// billing cycle or an unreadable ending date fails the whole batch, so that
/// nothing of it is written.
pub fn plan_renewals(today: Date, rows: &Vec<DueRow>) -> (r: Result<Vec<(i64, Date)>, RenewalError>)
    requires
        today.valid(),
    ensures
        r matches Ok(v) ==> renewal_plan(today, rows@) == Ok::<Seq<(i64, Date)>, RenewalError>(v@),
        r matches Err(e) ==> renewal_plan(today, rows@) == Err::<Seq<(i64, Date)>, RenewalError>(e),
        r matches Ok(v) ==> forall|i: int| 0 <= i < v@.len() ==> today.before(#[trigger] v@[i].1),
        r matches Ok(v) ==> forall|i: int|
            0 <= i < v@.len() ==> exists|j: int|
                0 <= j < rows@.len() && renewed_to(#[trigger] v@[i], rows@[j], today),
        r is Ok ==> forall|j: int|
            0 <= j < rows@.len() && (#[trigger] catch_up_target(rows@[j], today)) is Some
                ==> r->Ok_0@.contains((rows@[j].id, catch_up_target(rows@[j], today)->Some_0)),
{
    proof {
        lemma_renewal_plan_complete(today, rows@);
    }
    let mut out: Vec<(i64, Date)> = Vec::new();
    let mut i: usize = 0;
    while i < rows.len()
        invariant
            i <= rows.len(),
            today.valid(),
            renewal_plan(today, rows@.take(i as int)) == Ok::<Seq<(i64, Date)>, RenewalError>(out@),
            forall|j: int| 0 <= j < out@.len() ==> today.before(#[trigger] out@[j].1),
            forall|m: int|
                0 <= m < out@.len() ==> exists|j: int|
                    0 <= j < i && renewed_to(#[trigger] out@[m], rows@[j], today),
        decreases rows.len() - i,
    {
        let row = &rows[i];
        proof {
            assert(rows@.take(i as int + 1).drop_last() == rows@.take(i as int));
            assert(rows@.take(i as int + 1).last() == rows@[i as int]);
        }
        let cycle = match BillingCycle::from_db(row.billing_cycle.as_str()) {
            Some(c) => c,
            None => {
                proof {
                    lemma_renewal_error_persists(today, rows@, i as int + 1);
                }
                return Err(RenewalError::InvalidBillingCycle { id: row.id });
            },
        };
        let ending = match Date::parse(row.ending_date.as_str()) {
            Some(d) => d,
            None => {
                proof {
                    lemma_renewal_error_persists(today, rows@, i as int + 1);
                }
                return Err(RenewalError::InvalidEndingDate { id: row.id });
            },
        };
        match catch_up(ending, cycle, row.billing_interval, today) {
            CatchUp::Renewed(n) => {
                let ghost before = out@;
                out.push((row.id, n));
                proof {
                    assert(renewed_to(out@[out@.len() - 1], rows@[i as int], today));
                    assert forall|m: int| 0 <= m < out@.len() implies exists|j: int|
                        0 <= j < i + 1 && renewed_to(#[trigger] out@[m], rows@[j], today) by {
                        if m < before.len() {
                            assert(out@[m] == before[m]);
                        } else {
                            assert(renewed_to(out@[m], rows@[i as int], today));
                        }
                    }
                }
            },
            CatchUp::StillDue => {},
            CatchUp::OutOfRange => {
                proof {
                    lemma_renewal_error_persists(today, rows@, i as int + 1);
                }
                return Err(RenewalError::OutOfRange { id: row.id });
            },
        }
        i += 1;
    }
    proof {
        assert(rows@.take(rows@.len() as int) == rows@);
    }
    Ok(out)
}

} // verus!
