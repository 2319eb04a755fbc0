//! Civil dates as day counts, as the first stage reads acquisition dates.

use vstd::prelude::*;

verus! {

/// Division that rounds toward zero, as machine integers divide.
pub open spec fn tdiv(a: int, d: int) -> int
    recommends
        d > 0,
{
    if a >= 0 {
        a / d
    } else {
        -((-a) / d)
    }
}

/// The remainder that goes with [`tdiv`]: it has the sign of `a`.
pub open spec fn trem(a: int, d: int) -> int
    recommends
        d > 0,
{
    if a >= 0 {
        a % d
    } else {
        -((-a) % d)
    }
}

/// Days from 1970-01-01 to the date `year-month-day` of the proleptic
/// Gregorian calendar, counted in eras of 400 years that start on March 1.
pub open spec fn civil_days(year: int, month: int, day: int) -> int {
    let y = year - (if month <= 2 { 1int } else { 0int });
    let era = tdiv(if y >= 0 { y } else { y - 399 }, 400);
    let yoe = y - era * 400;
    let mp = month + (if month > 2 { -3int } else { 9int });
    let doy = tdiv(153 * mp + 2, 5) + day - 1;
    let doe = yoe * 365 + tdiv(yoe, 4) - tdiv(yoe, 100) + doy;
    era * 146097 + doe - 719468
}

/// `v` fits in an `i64`.
pub open spec fn fits_i64(v: int) -> bool {
    i64::MIN <= v <= i64::MAX
}

/// The day count and every step of its computation fit in an `i64`: the
/// inputs on which `days_from_civil` computes without overflow.
pub open spec fn civil_fits(year: int, month: int, day: int) -> bool {
    let y = year - (if month <= 2 { 1int } else { 0int });
    let shifted = if y >= 0 { y } else { y - 399 };
    let era = tdiv(shifted, 400);
    let mp = month + (if month > 2 { -3int } else { 9int });
    let q = tdiv(153 * mp + 2, 5);
    let doy = q + day - 1;
    let yoe = y - era * 400;
    let doe = yoe * 365 + tdiv(yoe, 4) - tdiv(yoe, 100) + doy;
    &&& fits_i64(y)
    &&& fits_i64(shifted)
    &&& fits_i64(153 * mp + 2)
    &&& fits_i64(q + day)
    &&& fits_i64(doy)
    &&& fits_i64(doe)
    &&& fits_i64(era * 146097)
    &&& fits_i64(era * 146097 + doe)
    &&& fits_i64(era * 146097 + doe - 719468)
}

/// Years within a quadrillion, months and days within a million: every such
/// date fits.
pub proof fn lemma_moderate_dates_fit(year: int, month: int, day: int)
    requires
        -1_000_000_000_000_000 <= year <= 1_000_000_000_000_000,
        -1_000_000 <= month <= 1_000_000,
        -1_000_000 <= day <= 1_000_000,
    ensures
        civil_fits(year, month, day),
{
    let y = year - (if month <= 2 { 1int } else { 0int });
    let shifted = if y >= 0 { y } else { y - 399 };
    let era = tdiv(shifted, 400);
    assert(-3_000_000_000_000 <= era <= 3_000_000_000_000);
    assert(0 <= y - era * 400 < 400);
}

/// Days from 1970-01-01 to `year-month-day`.
pub fn days_from_civil(year: i64, month: i64, day: i64) -> (r: i64)
    requires
        civil_fits(year as int, month as int, day as int),
    ensures
        r == civil_days(year as int, month as int, day as int),
{
    let year = year - if month <= 2 { 1i64 } else { 0i64 };
    let shifted = if year >= 0 { year } else { year - 399 };
    let era = shifted / 400;
    assert(era == tdiv(shifted as int, 400));
    let yoe = year - era * 400;
    assert(0 <= yoe < 400);
    let mp = month + if month > 2 { -3i64 } else { 9i64 };
    let q = (153 * mp + 2) / 5;
    assert(q == tdiv(153 * mp + 2, 5));
    let doy = q + day - 1;
    let doe = yoe * 365 + yoe / 4 - yoe / 100 + doy;
    era * 146_097 + doe - 719_468
}

/// Whether `year` is a leap year of the proleptic Gregorian calendar.
pub open spec fn is_leap_year(year: int) -> bool {
    (year % 4 == 0 && year % 100 != 0) || year % 400 == 0
}

/// The number of days of `month` (1 to 12) in `year`.
pub open spec fn days_in_month(year: int, month: int) -> int {
    if month == 2 {
        if is_leap_year(year) {
            29
        } else {
            28
        }
    } else if month == 4 || month == 6 || month == 9 || month == 11 {
        30
    } else {
        31
    }
}

/// `year-month-day` is a date of the proleptic Gregorian calendar.
pub open spec fn valid_date(year: int, month: int, day: int) -> bool {
    1 <= month <= 12 && 1 <= day <= days_in_month(year, month)
}

/// The date after `year-month-day`: the next day of the month, else the
/// first of the next month, else the first of January of the next year.
pub open spec fn next_date(year: int, month: int, day: int) -> (int, int, int) {
    if day < days_in_month(year, month) {
        (year, month, day + 1)
    } else if month < 12 {
        (year, month + 1, 1)
    } else {
        (year + 1, 1, 1)
    }
}

/// Within a month, the next day counts one more.
pub proof fn law_next_day_counts_one_more(year: int, month: int, day: int)
    ensures
        civil_days(year, month, day + 1) == civil_days(year, month, day) + 1,
{
}

proof fn lemma_era_floor(y: int)
    ensures
        tdiv(if y >= 0 { y } else { y - 399 }, 400) == y / 400,
{
    if y < 0 {
        let a = 399 - y;
        assert(a / 400 * 400 <= a < a / 400 * 400 + 400);
        assert(y / 400 * 400 <= y < y / 400 * 400 + 400);
    }
}

proof fn lemma_march_first(y: int)
    ensures
        civil_days(y, 3, 1) == (y / 400) * 146097 + (y % 400) * 365 + (y % 400) / 4 - (y % 400) / 100 - 719468,
{
    lemma_era_floor(y);
    vstd::arithmetic::div_mod::lemma_fundamental_div_mod(y, 400);
}

proof fn lemma_step_of_quotient(r: int, d: int)
    requires
        0 <= r,
        d == 4 || d == 100,
    ensures
        (r + 1) / d - r / d == if (r + 1) % d == 0 { 1int } else { 0int },
{
    if d == 4 {
        assert((r + 1) / 4 - r / 4 == if (r + 1) % 4 == 0 { 1int } else { 0int });
    } else {
        assert((r + 1) / 100 - r / 100 == if (r + 1) % 100 == 0 { 1int } else { 0int });
    }
}

/// From March 1 of one year to March 1 of the next there are 365 days, or
/// 366 when the February between them has a 29th.
proof fn lemma_year_of_march(y: int)
    ensures
        civil_days(y + 1, 3, 1) - civil_days(y, 3, 1) == if is_leap_year(y + 1) { 366int } else { 365int },
{
    lemma_march_first(y);
    lemma_march_first(y + 1);
    let q = y / 400;
    let r = y % 400;
    vstd::arithmetic::div_mod::lemma_fundamental_div_mod(y, 400);
    if r == 399 {
        assert(y + 1 == 400 * (q + 1) + 0);
        vstd::arithmetic::div_mod::lemma_div_multiples_vanish_fancy(q + 1, 0, 400);
        vstd::arithmetic::div_mod::lemma_mod_multiples_vanish(q + 1, 0, 400);
    } else {
        assert(y + 1 == 400 * q + (r + 1));
        vstd::arithmetic::div_mod::lemma_div_multiples_vanish_fancy(q, r + 1, 400);
        vstd::arithmetic::div_mod::lemma_mod_multiples_vanish(q, r + 1, 400);
        assert(y + 1 == 4 * (100 * q) + (r + 1));
        vstd::arithmetic::div_mod::lemma_mod_multiples_vanish(100 * q, r + 1, 4);
        assert(y + 1 == 100 * (4 * q) + (r + 1));
        vstd::arithmetic::div_mod::lemma_mod_multiples_vanish(4 * q, r + 1, 100);
        lemma_step_of_quotient(r, 4);
        lemma_step_of_quotient(r, 100);
    }
}

/// The day after a date counts one more, across the ends of months and
/// years and on either side of a leap day.
pub proof fn law_next_date_counts_one_more(year: int, month: int, day: int)
    requires
        valid_date(year, month, day),
    ensures
        ({
            let (y2, m2, d2) = next_date(year, month, day);
            valid_date(y2, m2, d2) && civil_days(y2, m2, d2) == civil_days(year, month, day) + 1
        }),
{
    if day == days_in_month(year, month) && month == 2 {
        lemma_year_of_march(year - 1);
        assert(civil_days(year, 2, day) == civil_days(year, 3, 1) - 1);
    }
}

/// The days since 1970-01-01 of a date written as the number `YYYYMMDD`,
/// shifted by 719529 to the day numbering of the proleptic calendar in which
/// 0000-01-01 is day 1.
pub open spec fn spec_yyyymmdd_ordinal(value: int) -> int {
    civil_days(tdiv(value, 10000), tdiv(trem(value, 10000), 100), trem(value, 100)) + 719529
}

/// The day number of a date written as the number `YYYYMMDD`.
pub fn yyyymmdd_to_ordinal(value: i64) -> (r: i64)
    ensures
        r == spec_yyyymmdd_ordinal(value as int),
{
    let year = value / 10_000;
    let rest = value % 10_000;
    let month = rest / 100;
    let day = value % 100;
    assert(year == tdiv(value as int, 10000));
    assert(rest == trem(value as int, 10000));
    assert(month == tdiv(trem(value as int, 10000), 100));
    assert(day == trem(value as int, 100));
    proof {
        lemma_moderate_dates_fit(year as int, month as int, day as int);
    }
    days_from_civil(year, month, day) + 719_529
}

} // verus!

verus! {

/// The acquisitions of a patch in date order: `order[s]` is the original
/// position of the `s`-th earliest secondary acquisition (equal dates keep
/// their original order), and `master_ix` is the 1-based position of the
/// master acquisition among all dates: one more than the number of secondary
/// acquisitions strictly before it.
pub struct AcquisitionOrder {
    pub order: Vec<usize>,
    pub master_ix: usize,
}

/// Acquisition `a` comes before acquisition `b` (positions into `days`).
pub open spec fn acquired_before(days: Seq<int>, a: int, b: int) -> bool {
    days[a] < days[b] || (days[a] == days[b] && a < b)
}

/// The number of the first `k` days that fall strictly before `day`.
pub open spec fn count_before(days: Seq<int>, k: int, day: int) -> nat
    decreases k,
{
    if k <= 0 {
        0
    } else {
        count_before(days, k - 1, day) + (if days[k - 1] < day { 1nat } else { 0nat })
    }
}

/// The day numbers of dates written as `YYYYMMDD`.
pub open spec fn day_numbers(dates: Seq<i64>) -> Seq<int> {
    dates.map_values(|d: i64| spec_yyyymmdd_ordinal(d as int))
}

/// Puts the secondary acquisitions (dates written as `YYYYMMDD`) in date
/// order and places the master acquisition among them.
pub fn order_acquisitions(dates: &Vec<i64>, master_date: i64) -> (r: AcquisitionOrder)
    requires
        dates@.len() < usize::MAX,
    ensures
        r.order@.len() == dates@.len(),
        forall|s: int| 0 <= s < dates@.len() ==> #[trigger] r.order@[s] < dates@.len(),
        forall|s: int, t: int| 0 <= s < t < dates@.len() ==> acquired_before(
            day_numbers(dates@),
            #[trigger] r.order@[s] as int,
            #[trigger] r.order@[t] as int,
        ),
        r.master_ix == count_before(day_numbers(dates@), dates@.len() as int, spec_yyyymmdd_ordinal(master_date as int)) + 1,
{
    let n = dates.len();
    let ghost days = day_numbers(dates@);
    let mut ordinals: Vec<i64> = Vec::new();
    let mut i: usize = 0;
    while i < n
        invariant
            i <= n,
            n == dates@.len(),
            days == day_numbers(dates@),
            ordinals@.len() == i,
            forall|k: int| 0 <= k < i ==> #[trigger] ordinals@[k] == days[k],
        decreases n - i,
    {
        ordinals.push(yyyymmdd_to_ordinal(dates[i]));
        i = i + 1;
    }
    let master = yyyymmdd_to_ordinal(master_date);
    let mut before: usize = 0;
    let mut k: usize = 0;
    while k < n
        invariant
            k <= n,
            n == dates@.len(),
            ordinals@.len() == n,
            forall|j: int| 0 <= j < n ==> #[trigger] ordinals@[j] == days[j],
            before == count_before(days, k as int, master as int),
            before <= k,
        decreases n - k,
    {
        if ordinals[k] < master {
            before = before + 1;
        }
        k = k + 1;
    }
    let mut order: Vec<usize> = Vec::new();
    let mut m: usize = 0;
    while m < n
        invariant
            m <= n,
            n == dates@.len(),
            ordinals@.len() == n,
            forall|j: int| 0 <= j < n ==> #[trigger] ordinals@[j] == days[j],
            order@.len() == m,
            forall|s: int| 0 <= s < m ==> #[trigger] order@[s] < m,
            forall|s: int, t: int| 0 <= s < t < m ==> acquired_before(days, #[trigger] order@[s] as int, #[trigger] order@[t] as int),
        decreases n - m,
    {
        let key = ordinals[m];
        let mut pos: usize = order.len();
        while pos > 0 && ordinals[order[pos - 1]] > key
            invariant
                pos <= m,
                key == ordinals@[m as int],
                order@.len() == m,
                ordinals@.len() == n,
                m < n,
                forall|s: int| 0 <= s < m ==> #[trigger] order@[s] < m,
                forall|s: int| pos <= s < m ==> days[#[trigger] order@[s] as int] > days[m as int],
                forall|j: int| 0 <= j < n ==> #[trigger] ordinals@[j] == days[j],
            decreases pos,
        {
            pos = pos - 1;
        }
        let ghost old_order = order@;
        order.insert(pos, m);
        proof {
            assert forall|s: int| 0 <= s < m + 1 implies #[trigger] order@[s] < m + 1 by {
                if s < pos {
                    assert(order@[s] == old_order[s]);
                } else if s > pos {
                    assert(order@[s] == old_order[s - 1]);
                }
            }
            assert forall|s: int, t: int| 0 <= s < t < m + 1 implies acquired_before(
                days,
                #[trigger] order@[s] as int,
                #[trigger] order@[t] as int,
            ) by {
                if t < pos {
                    assert(order@[s] == old_order[s] && order@[t] == old_order[t]);
                } else if t == pos {
                    assert(order@[s] == old_order[s]);
                    assert(old_order[s] < m);
                    if pos > 0 {
                        assert(days[old_order[pos - 1] as int] <= days[m as int]);
                        if s < pos - 1 {
                            assert(acquired_before(days, old_order[s] as int, old_order[pos - 1] as int));
                        }
                    }
                } else if s == pos {
                    assert(order@[t] == old_order[t - 1]);
                    assert(days[old_order[t - 1] as int] > days[m as int]);
                } else if s < pos {
                    assert(order@[s] == old_order[s] && order@[t] == old_order[t - 1]);
                } else {
                    assert(order@[s] == old_order[s - 1] && order@[t] == old_order[t - 1]);
                }
            }
        }
        m = m + 1;
    }
    AcquisitionOrder { order, master_ix: before + 1 }
}

/// The column of the `s`-th earliest secondary acquisition once the master
/// acquisition takes its place in date order (columns are 0-based).
pub open spec fn spec_output_column(s: int, master_ix: int) -> int {
    if s + 1 >= master_ix {
        s + 1
    } else {
        s
    }
}

/// The column of the `s`-th earliest secondary acquisition among all dates.
pub fn output_column(s: usize, master_ix: usize) -> (r: usize)
    requires
        s < usize::MAX,
    ensures
        r == spec_output_column(s as int, master_ix as int),
{
    if s + 1 >= master_ix {
        s + 1
    } else {
        s
    }
}

} // verus!
