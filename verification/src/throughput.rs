//! Throughput history: stories completed per week and bearings laid per
//! month, counted back from a given day.
//!
//! A day is its number counted from the common era (0001-01-01, a Monday,
//! is day 1); a month is a year and a month number from 1 to 12.

use vstd::prelude::*;
use crate::flow_state::count_where;

verus! {

/// The Monday that starts the week of `day`.
pub open spec fn week_start_spec(day: int) -> int {
    day - (day + 6) % 7
}

/// The Mondays of the `n` weeks that end with the week of `today`, newest first.
pub open spec fn week_starts_spec(today: int, n: nat) -> Seq<int> {
    Seq::new(n, |k: int| week_start_spec(today) - 7 * k)
}

/// The month `k` months before `(year, month)`.
pub open spec fn month_back(year: int, month: int, k: int) -> (int, int) {
    let idx = year * 12 + (month - 1) - k;
    (idx / 12, idx % 12 + 1)
}

/// The `n` months that end with `(year, month)`, newest first.
pub open spec fn months_spec(year: int, month: int, n: nat) -> Seq<(int, int)> {
    Seq::new(n, |k: int| month_back(year, month, k))
}

pub open spec fn in_week(ws: int) -> spec_fn(i32) -> bool {
    |d: i32| ws <= d < ws + 7
}

pub open spec fn in_month(y: int, m: int) -> spec_fn((i32, u32)) -> bool {
    |p: (i32, u32)| p.0 == y && p.1 == m
}

/// The earliest week in which any of `days` falls.
pub open spec fn oldest_week(days: Seq<i32>) -> int
    decreases days.len(),
{
    if days.len() == 0 {
        0
    } else if days.len() == 1 {
        week_start_spec(days[0] as int)
    } else {
        let rest = oldest_week(days.drop_last());
        let w = week_start_spec(days.last() as int);
        if w < rest { w } else { rest }
    }
}

/// How many weeks story throughput is averaged over: the weeks from the
/// first completion to the current week, at least one and at most the
/// window asked for; the whole window when nothing was completed yet.
pub open spec fn effective_weeks_spec(days: Seq<i32>, requested: nat, today: int) -> nat {
    if requested == 0 {
        0
    } else if days.len() == 0 {
        requested
    } else {
        let elapsed = (week_start_spec(today) - oldest_week(days)) / 7 + 1;
        if elapsed < 1 {
            1
        } else if elapsed > requested {
            requested
        } else {
            elapsed as nat
        }
    }
}

/// Stories completed in one week.
#[derive(Clone, Copy, Debug, PartialEq, Eq)]
pub struct WeekThroughput {
    /// The week's Monday.
    pub week_start: i64,
    /// Stories completed that week.
    pub count: usize,
}

/// Bearings laid in one month.
#[derive(Clone, Copy, Debug, PartialEq, Eq)]
pub struct MonthThroughput {
    pub year: i32,
    /// 1 to 12.
    pub month: u32,
    /// Bearings laid that month.
    pub count: usize,
}

/// Throughput counts: per week (newest first), per month over the last six
/// months (newest first), and the number of weeks the weekly average runs over.
#[derive(Clone, Debug)]
pub struct ThroughputCounts {
    pub stories_per_week: Vec<WeekThroughput>,
    pub bearings_per_month: Vec<MonthThroughput>,
    pub story_weeks: usize,
}

proof fn lemma_week_start(day: int)
    ensures
        week_start_spec(day) <= day < week_start_spec(day) + 7,
        (week_start_spec(day) + 6) % 7 == 0,
{
    let r = (day + 6) % 7;
    assert(0 <= r < 7);
    assert((day - r + 6) % 7 == 0) by {
        vstd::arithmetic::div_mod::lemma_fundamental_div_mod(day + 6, 7);
        assert(day - r + 6 == ((day + 6) / 7) * 7 + 0);
        vstd::arithmetic::div_mod::lemma_fundamental_div_mod_converse(day - r + 6, 7, (day + 6) / 7, 0);
    }
}

/// The Monday that starts the week of `day`.
pub fn start_of_week_monday(day: i32) -> (r: i64)
    ensures
        r == week_start_spec(day as int),
{
    let x: i64 = (day as i64 + 6) % 7;
    let rem: i64 = if x < 0 { x + 7 } else { x };
    day as i64 - rem
}

/// The Mondays of the `weeks` weeks ending with the week of `today`,
/// newest first.
pub fn generate_week_starts(today: i32, weeks: usize) -> (r: Vec<i64>)
    requires
        weeks <= u32::MAX,
    ensures
        r@.len() == weeks,
        forall|k: int| 0 <= k < weeks ==> r@[k] == #[trigger] week_starts_spec(today as int, weeks as nat)[k],
{
    let mut result: Vec<i64> = Vec::new();
    let mut current: i64 = start_of_week_monday(today);
    let mut k: usize = 0;
    while k < weeks
        invariant
            k <= weeks <= u32::MAX,
            result@.len() == k,
            current == week_start_spec(today as int) - 7 * k,
            forall|j: int| 0 <= j < k ==> result@[j] == week_start_spec(today as int) - 7 * j,
        decreases weeks - k,
    {
        proof {
            assert(week_start_spec(today as int) >= i32::MIN - 6);
        }
        result.push(current);
        current = current - 7;
        k = k + 1;
    }
    result
}

proof fn lemma_month_step(year: int, month: int, k: int)
    requires
        1 <= month <= 12,
        1 <= month_back(year, month, k).1 <= 12,
    ensures
        month_back(year, month, k + 1) == (if month_back(year, month, k).1 == 1 {
            (month_back(year, month, k).0 - 1, 12int)
        } else {
            (month_back(year, month, k).0, month_back(year, month, k).1 - 1)
        }),
{
    let idx = year * 12 + (month - 1) - k;
    vstd::arithmetic::div_mod::lemma_fundamental_div_mod(idx, 12);
    vstd::arithmetic::div_mod::lemma_fundamental_div_mod(idx - 1, 12);
    let q = idx / 12;
    let r = idx % 12;
    if r == 0 {
        assert(idx - 1 == (q - 1) * 12 + 11);
        vstd::arithmetic::div_mod::lemma_fundamental_div_mod_converse(idx - 1, 12, q - 1, 11);
    } else {
        assert(idx - 1 == q * 12 + (r - 1));
        vstd::arithmetic::div_mod::lemma_fundamental_div_mod_converse(idx - 1, 12, q, r - 1);
    }
}

/// The `months` months ending with `(year, month)`, newest first.
pub fn generate_months(year: i32, month: u32, months: usize) -> (r: Vec<(i32, u32)>)
    requires
        1 <= month <= 12,
        year - months / 12 - 1 >= i32::MIN,
    ensures
        r@.len() == months,
        forall|k: int| 0 <= k < months ==> {
            let p = #[trigger] months_spec(year as int, month as int, months as nat)[k];
            r@[k].0 == p.0 && r@[k].1 == p.1
        },
{
    let mut result: Vec<(i32, u32)> = Vec::new();
    let mut y: i32 = year;
    let mut m: u32 = month;
    let mut k: usize = 0;
    proof {
        vstd::arithmetic::div_mod::lemma_fundamental_div_mod_converse(
            year * 12 + (month - 1), 12, year as int, month - 1);
    }
    while k < months
        invariant
            k <= months,
            1 <= month <= 12,
            year - months / 12 - 1 >= i32::MIN,
            1 <= m <= 12,
            result@.len() == k,
            (y as int, m as int) == month_back(year as int, month as int, k as int),
            forall|j: int| 0 <= j < k ==> {
                let p = month_back(year as int, month as int, j);
                (#[trigger] result@[j]).0 == p.0 && result@[j].1 == p.1
            },
        decreases months - k,
    {
        result.push((y, m));
        proof {
            lemma_month_step(year as int, month as int, k as int);
            lemma_year_bound(year as int, month as int, k as int, months as int);
        }
        if m == 1 {
            m = 12;
            y = y - 1;
        } else {
            m = m - 1;
        }
        k = k + 1;
    }
    result
}

proof fn lemma_year_bound(year: int, month: int, k: int, n: int)
    requires
        1 <= month <= 12,
        0 <= k < n,
    ensures
        month_back(year, month, k).0 >= year - n / 12 - 1,
{
    let idx = year * 12 + (month - 1) - k;
    vstd::arithmetic::div_mod::lemma_fundamental_div_mod(idx, 12);
    vstd::arithmetic::div_mod::lemma_fundamental_div_mod(n, 12);
    assert(idx >= year * 12 - n + 1);
    assert(idx / 12 >= year - n / 12 - 1) by (nonlinear_arith)
        requires
            idx == 12 * (idx / 12) + idx % 12,
            0 <= idx % 12 < 12,
            n == 12 * (n / 12) + n % 12,
            0 <= n % 12 < 12,
            idx >= year * 12 - n + 1;
}

/// How many of `days` fall in the week starting `week_start`.
fn count_in_week(days: &Vec<i32>, week_start: i64) -> (r: usize)
    ensures
        r == count_where(days@, in_week(week_start as int)),
{
    let mut n: usize = 0;
    let mut i: usize = 0;
    while i < days.len()
        invariant
            i <= days.len(),
            n == count_where(days@.take(i as int), in_week(week_start as int)),
        decreases days.len() - i,
    {
        proof {
            crate::flow_state::lemma_count_step(days@, i as int, in_week(week_start as int));
        }
        let d = days[i] as i64;
        if week_start <= d && d < week_start + 7 {
            n = n + 1;
        }
        i = i + 1;
    }
    proof {
        assert(days@.take(days@.len() as int) =~= days@);
    }
    n
}

/// How many of `months` are `(year, month)`.
fn count_in_month(months: &Vec<(i32, u32)>, year: i32, month: u32) -> (r: usize)
    ensures
        r == count_where(months@, in_month(year as int, month as int)),
{
    let mut n: usize = 0;
    let mut i: usize = 0;
    while i < months.len()
        invariant
            i <= months.len(),
            n == count_where(months@.take(i as int), in_month(year as int, month as int)),
        decreases months.len() - i,
    {
        proof {
            crate::flow_state::lemma_count_step(months@, i as int, in_month(year as int, month as int));
        }
        if months[i].0 == year && months[i].1 == month {
            n = n + 1;
        }
        i = i + 1;
    }
    proof {
        assert(months@.take(months@.len() as int) =~= months@);
    }
    n
}

proof fn lemma_oldest_step(days: Seq<i32>, i: int)
    requires
        0 <= i < days.len(),
    ensures
        oldest_week(days.take(i + 1)) == if i == 0 {
            week_start_spec(days[0] as int)
        } else {
            let rest = oldest_week(days.take(i));
            let w = week_start_spec(days[i] as int);
            if w < rest { w } else { rest }
        },
{
    assert(days.take(i + 1).drop_last() =~= days.take(i));
}

/// The number of weeks the weekly story average runs over.
fn effective_story_weeks(completed: &Vec<i32>, requested: usize, today: i32) -> (r: usize)
    ensures
        r == effective_weeks_spec(completed@, requested as nat, today as int),
{
    if requested == 0 {
        return 0;
    }
    if completed.len() == 0 {
        return requested;
    }
    let mut oldest: i64 = start_of_week_monday(completed[0]);
    let mut i: usize = 1;
    proof {
        lemma_oldest_step(completed@, 0);
    }
    while i < completed.len()
        invariant
            1 <= i <= completed.len(),
            oldest == oldest_week(completed@.take(i as int)),
            i32::MIN - 6 <= oldest <= i32::MAX,
        decreases completed.len() - i,
    {
        proof {
            lemma_oldest_step(completed@, i as int);
        }
        let w = start_of_week_monday(completed[i]);
        if w < oldest {
            oldest = w;
        }
        i = i + 1;
    }
    proof {
        assert(completed@.take(completed@.len() as int) =~= completed@);
        lemma_week_start(today as int);
        lemma_oldest_is_monday(completed@);
    }
    let current = start_of_week_monday(today);
    let elapsed: i64 = (current - oldest) / 7 + 1;
    proof {
        lemma_trunc_div_monday(current as int, oldest as int);
    }
    if elapsed < 1 {
        1
    } else if elapsed as u64 > requested as u64 {
        requested
    } else {
        elapsed as usize
    }
}

proof fn lemma_oldest_is_monday(days: Seq<i32>)
    requires
        days.len() > 0,
    ensures
        (oldest_week(days) + 6) % 7 == 0,
        i32::MIN - 6 <= oldest_week(days) <= i32::MAX,
    decreases days.len(),
{
    if days.len() == 1 {
        lemma_week_start(days[0] as int);
    } else {
        lemma_oldest_is_monday(days.drop_last());
        lemma_week_start(days.last() as int);
    }
}

/// Between two Mondays, truncating division by seven is exact division.
proof fn lemma_trunc_div_monday(a: int, b: int)
    requires
        (a + 6) % 7 == 0,
        (b + 6) % 7 == 0,
    ensures
        (a - b) % 7 == 0,
{
    vstd::arithmetic::div_mod::lemma_fundamental_div_mod(a + 6, 7);
    vstd::arithmetic::div_mod::lemma_fundamental_div_mod(b + 6, 7);
    let qa = (a + 6) / 7;
    let qb = (b + 6) / 7;
    assert(a - b == (qa - qb) * 7 + 0) by (nonlinear_arith)
        requires
            a + 6 == 7 * qa + 0,
            b + 6 == 7 * qb + 0;
    vstd::arithmetic::div_mod::lemma_fundamental_div_mod_converse(a - b, 7, qa - qb, 0);
}

/// Throughput counts as of `today`: completions per week for the last
/// `weeks` weeks, and bearings laid per month for the last six months
/// (`this_year`, `this_month` being the month of `today`).
pub fn calculate_throughput(completed: &Vec<i32>, laid: &Vec<(i32, u32)>, today: i32,
    this_year: i32, this_month: u32, weeks: usize) -> (t: ThroughputCounts)
    requires
        weeks <= u32::MAX,
        1 <= this_month <= 12,
        this_year > i32::MIN,
    ensures
        t.stories_per_week@.len() == weeks,
        forall|k: int| 0 <= k < weeks ==> {
            let ws = #[trigger] week_starts_spec(today as int, weeks as nat)[k];
            t.stories_per_week@[k].week_start == ws
                && t.stories_per_week@[k].count == count_where(completed@, in_week(ws))
        },
        t.bearings_per_month@.len() == 6,
        forall|k: int| 0 <= k < 6 ==> {
            let p = #[trigger] months_spec(this_year as int, this_month as int, 6)[k];
            t.bearings_per_month@[k].year == p.0 && t.bearings_per_month@[k].month == p.1
                && t.bearings_per_month@[k].count == count_where(laid@, in_month(p.0, p.1))
        },
        t.story_weeks == effective_weeks_spec(completed@, weeks as nat, today as int),
{
    let starts = generate_week_starts(today, weeks);
    let mut per_week: Vec<WeekThroughput> = Vec::new();
    let mut k: usize = 0;
    while k < starts.len()
        invariant
            k <= starts@.len() == weeks,
            per_week@.len() == k,
            forall|j: int| 0 <= j < weeks ==> starts@[j] == #[trigger] week_starts_spec(today as int, weeks as nat)[j],
            forall|j: int| 0 <= j < k ==> {
                let ws = week_starts_spec(today as int, weeks as nat)[j];
                (#[trigger] per_week@[j]).week_start == ws
                    && per_week@[j].count == count_where(completed@, in_week(ws))
            },
        decreases starts.len() - k,
    {
        let ws = starts[k];
        let count = count_in_week(completed, ws);
        per_week.push(WeekThroughput { week_start: ws, count });
        proof {
            assert(starts@[k as int] == week_starts_spec(today as int, weeks as nat)[k as int]);
        }
        k = k + 1;
    }
    let months = generate_months(this_year, this_month, 6);
    let mut per_month: Vec<MonthThroughput> = Vec::new();
    let mut j: usize = 0;
    while j < months.len()
        invariant
            j <= months@.len() == 6,
            per_month@.len() == j,
            forall|i: int| 0 <= i < 6 ==> {
                let p = #[trigger] months_spec(this_year as int, this_month as int, 6)[i];
                months@[i].0 == p.0 && months@[i].1 == p.1
            },
            forall|i: int| 0 <= i < j ==> {
                let p = months_spec(this_year as int, this_month as int, 6)[i];
                (#[trigger] per_month@[i]).year == p.0 && per_month@[i].month == p.1
                    && per_month@[i].count == count_where(laid@, in_month(p.0, p.1))
            },
        decreases months.len() - j,
    {
        let (y, m) = months[j];
        proof {
            let _ = months_spec(this_year as int, this_month as int, 6)[j as int];
        }
        let count = count_in_month(laid, y, m);
        per_month.push(MonthThroughput { year: y, month: m, count });
        j = j + 1;
    }
    let story_weeks = effective_story_weeks(completed, weeks, today);
    ThroughputCounts { stories_per_week: per_week, bearings_per_month: per_month, story_weeks }
}

} // verus!
