//! The processed dates of a configuration, as day numbers (days from the
//! common era, January 1 of year 1 being day 1), and the times of day at which
//! each is processed.
use vstd::prelude::*;

use crate::config::TimeStep;

verus! {

/// The day number `n` days after `day`, or `None` where the date leaves the
/// calendar's range.
pub uninterp spec fn days_later(day: int, n: int) -> Option<int>;

/// The day number one calendar month after `day` (on the last day of the
/// month where the day of the month does not exist there), or `None` where the
/// date leaves the calendar's range.
pub uninterp spec fn month_later(day: int) -> Option<int>;

/// Relies on chrono's `NaiveDate::checked_add_days`, with the day number
/// converted by `NaiveDate::from_num_days_from_ce_opt` and
/// `Datelike::num_days_from_ce`: the date `n` days on, when it is in range.
#[verifier::external_body]
fn add_days(day: i32, n: u32) -> (r: Option<i32>)
    ensures
        r is None <==> days_later(day as int, n as int) is None,
        r matches Some(x) ==> days_later(day as int, n as int) == Some(x as int) && x == day + n,
{
    let date = chrono::NaiveDate::from_num_days_from_ce_opt(day)?;
    let later = date.checked_add_days(chrono::Days::new(n as u64))?;
    Some(chrono::Datelike::num_days_from_ce(&later))
}

/// Relies on chrono's `NaiveDate::checked_add_months` with `Months::new(1)`,
/// with the day number converted by `NaiveDate::from_num_days_from_ce_opt` and
/// `Datelike::num_days_from_ce`: a date in the following month, hence later.
#[verifier::external_body]
fn add_one_month(day: i32) -> (r: Option<i32>)
    ensures
        r is None <==> month_later(day as int) is None,
        r matches Some(x) ==> month_later(day as int) == Some(x as int) && x > day,
{
    let date = chrono::NaiveDate::from_num_days_from_ce_opt(day)?;
    let later = date.checked_add_months(chrono::Months::new(1))?;
    Some(chrono::Datelike::num_days_from_ce(&later))
}

/// The date that follows `day` at a time step.
pub open spec fn spec_next_date(day: int, step: TimeStep) -> Option<int> {
    match step {
        TimeStep::Daily => days_later(day, 1),
        TimeStep::Weekly => days_later(day, 7),
        TimeStep::Monthly => month_later(day),
    }
}

/// The date that follows `day` at a time step: a day, a week or a calendar
/// month later.
pub fn next_date(day: i32, step: TimeStep) -> (r: Option<i32>)
    ensures
        r is None <==> spec_next_date(day as int, step) is None,
        r matches Some(x) ==> spec_next_date(day as int, step) == Some(x as int) && x > day,
{
    match step {
        TimeStep::Daily => add_days(day, 1),
        TimeStep::Weekly => add_days(day, 7),
        TimeStep::Monthly => add_one_month(day),
    }
}

/// After `day` the series ends: there is no next date, or it lies after `end`.
pub open spec fn ends_after(day: int, end: int, step: TimeStep) -> bool {
    match spec_next_date(day, step) {
        None => true,
        Some(x) => x > end,
    }
}

/// The dates from `start` to `end`, both included, at a time step: `start`,
/// then each next date while it does not pass `end`.
pub fn date_series(start: i32, end: i32, step: TimeStep) -> (r: Vec<i32>)
    ensures
        start > end ==> r@.len() == 0,
        start <= end ==> r@.len() > 0 && r@[0] == start && ends_after(
            r@.last() as int,
            end as int,
            step,
        ),
        forall|i: int| 0 <= i < r@.len() ==> #[trigger] r@[i] <= end,
        forall|i: int|
            0 <= i < r@.len() - 1 ==> spec_next_date(#[trigger] r@[i] as int, step) == Some(
                r@[i + 1] as int,
            ),
{
    let mut out: Vec<i32> = Vec::new();
    if start > end {
        return out;
    }
    out.push(start);
    let mut cur: i32 = start;
    let mut done = false;
    while !done
        invariant
            out@.len() > 0,
            out@[0] == start,
            out@.last() == cur,
            cur <= end,
            forall|i: int| 0 <= i < out@.len() ==> #[trigger] out@[i] <= end,
            forall|i: int|
                0 <= i < out@.len() - 1 ==> spec_next_date(#[trigger] out@[i] as int, step) == Some(
                    out@[i + 1] as int,
                ),
            done ==> ends_after(cur as int, end as int, step),
        decreases end - cur + if done {
            0int
        } else {
            1int
        },
    {
        match next_date(cur, step) {
            None => {
                done = true;
            },
            Some(n) => {
                if n > end {
                    done = true;
                } else {
                    let ghost before = out@;
                    out.push(n);
                    assert(out@[before.len() - 1] == cur);
                    cur = n;
                }
            },
        }
    }
    out
}

/// Each date paired with each hour, dates outermost.
pub open spec fn spec_day_times(dates: Seq<i32>, hours: Seq<u32>) -> Seq<(i32, u32)>
    decreases dates.len(),
{
    if dates.len() == 0 {
        Seq::empty()
    } else {
        spec_day_times(dates.drop_last(), hours) + hours.map_values(|h: u32| (dates.last(), h))
    }
}

/// Each date paired with each hour, dates outermost: the processed times of a
/// date series.
pub fn day_times(dates: &Vec<i32>, hours: &Vec<u32>) -> (r: Vec<(i32, u32)>)
    ensures
        r@ == spec_day_times(dates@, hours@),
{
    let mut out: Vec<(i32, u32)> = Vec::new();
    let mut i: usize = 0;
    while i < dates.len()
        invariant
            0 <= i <= dates@.len(),
            out@ == spec_day_times(dates@.subrange(0, i as int), hours@),
        decreases dates@.len() - i,
    {
        let d = dates[i];
        let ghost base = out@;
        let mut j: usize = 0;
        while j < hours.len()
            invariant
                0 <= j <= hours@.len(),
                d == dates@[i as int],
                i < dates@.len(),
                out@ == base + hours@.subrange(0, j as int).map_values(|h: u32| (d, h)),
            decreases hours@.len() - j,
        {
            out.push((d, hours[j]));
            assert(hours@.subrange(0, j as int + 1).map_values(|h: u32| (d, h)) =~= hours@.subrange(
                0,
                j as int,
            ).map_values(|h: u32| (d, h)).push((d, hours@[j as int])));
            j = j + 1;
        }
        proof {
            let next = dates@.subrange(0, i as int + 1);
            assert(next.drop_last() =~= dates@.subrange(0, i as int));
            assert(hours@.subrange(0, hours@.len() as int) =~= hours@);
            assert(out@ =~= spec_day_times(next, hours@));
        }
        i = i + 1;
    }
    assert(dates@.subrange(0, dates@.len() as int) =~= dates@);
    out
}

} // verus!
