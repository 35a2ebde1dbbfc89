//! The monthly usage report: one table row per day of the month, then totals.
use vstd::prelude::*;
use crate::metrics::DailyMetrics;
use crate::parse::{parse_i32, parse_u32, parsed_i32, parsed_u32};
use crate::text::{
    chars_between, chars_of, decimal, find_char_from, lemma_split_at, push_decimal,
    push_signed_decimal, signed_decimal, split_at_first,
};

verus! {

// ---------------------------------------------------------------------------
// The proleptic Gregorian calendar
// ---------------------------------------------------------------------------

/// Leap years: multiples of 4, except multiples of 100 that are not multiples of 400.
pub open spec fn is_leap_year(y: int) -> bool {
    y % 4 == 0 && (y % 100 != 0 || y % 400 == 0)
}

/// The number of days of month `m` (1 to 12) of year `y`.
pub open spec fn month_length(y: int, m: int) -> int {
    if m == 2 {
        if is_leap_year(y) {
            29
        } else {
            28
        }
    } else if m == 4 || m == 6 || m == 9 || m == 11 {
        30
    } else {
        31
    }
}

/// The number of days of year `y` before the first of month `m`.
pub open spec fn days_before_month(y: int, m: int) -> int
    decreases m,
{
    if m <= 1 {
        0
    } else {
        days_before_month(y, m - 1) + month_length(y, m - 1)
    }
}

/// The day count of a date, with January 1 of year 1 as day 1.
pub open spec fn day_number(y: int, m: int, d: int) -> int {
    let p = y - 1;
    365 * p + p / 4 - p / 100 + p / 400 + days_before_month(y, m) + d
}

/// The first of month `m` of year `y` is a date that chrono's `NaiveDate`
/// can hold: a month from 1 to 12 in a year from -262143 to 262142.
pub open spec fn date_supported(y: int, m: int) -> bool {
    -262143 <= y <= 262142 && 1 <= m <= 12
}

/// The day count of the first of a month, by `chrono::NaiveDate::from_ymd_opt`
/// and `Datelike::num_days_from_ce`. The contract states what chrono documents:
/// the date exists exactly for a supported year and a month from 1 to 12, and its
/// count is that of the proleptic Gregorian calendar with 0001-01-01 as day 1.
#[verifier::external_body]
fn first_day_number(year: i32, month: u32) -> (r: Option<i32>)
    ensures
        r == (if date_supported(year as int, month as int) {
            Some(day_number(year as int, month as int, 1) as i32)
        } else {
            None
        }),
{
    match chrono::NaiveDate::from_ymd_opt(year, month, 1) {
        Some(d) => Some(chrono::Datelike::num_days_from_ce(&d)),
        None => None,
    }
}

proof fn lemma_days_before_december(y: int)
    ensures
        days_before_month(y, 12) == 334 + (if is_leap_year(y) { 1int } else { 0int }),
{
    reveal_with_fuel(days_before_month, 12);
}

proof fn lemma_floor_steps(y: int)
    ensures
        y / 4 - (y - 1) / 4 == (if y % 4 == 0 { 1int } else { 0int }),
        y / 100 - (y - 1) / 100 == (if y % 100 == 0 { 1int } else { 0int }),
        y / 400 - (y - 1) / 400 == (if y % 400 == 0 { 1int } else { 0int }),
{
}

/// Consecutive months are `month_length` days apart.
pub proof fn lemma_next_month_distance(y: int, m: int)
    requires
        1 <= m <= 12,
    ensures
        m < 12 ==> day_number(y, m + 1, 1) - day_number(y, m, 1) == month_length(y, m),
        m == 12 ==> day_number(y + 1, 1, 1) - day_number(y, 12, 1) == month_length(y, 12),
{
    if m == 12 {
        lemma_days_before_december(y);
        lemma_floor_steps(y);
        assert(days_before_month(y + 1, 1) == 0);
        assert(days_before_month(y, 12) + month_length(y, 12) == 365 + (if is_leap_year(y) {
            1int
        } else {
            0int
        }));
    }
}

/// How many days the report shows for year `y` and month `m`: the length of
/// the month where chrono can hold both its first day and the next month's,
/// and 30 otherwise (a month out of range, or December of chrono's last year).
pub open spec fn days_in_month_for(y: int, m: int) -> int {
    if date_supported(y, m) && !(y == 262142 && m == 12) {
        month_length(y, m)
    } else {
        30
    }
}

// ---------------------------------------------------------------------------
// Reading `YYYY-MM`
// ---------------------------------------------------------------------------

/// The month string holds a `-`.
pub open spec fn has_dash(s: Seq<char>) -> bool {
    split_at_first(s, '-').1 is Some
}

/// The year field: the text before the first `-`.
pub open spec fn year_field(s: Seq<char>) -> Seq<char> {
    split_at_first(s, '-').0
}

/// The month field: the text between the first `-` and the next one.
pub open spec fn month_field(s: Seq<char>) -> Seq<char> {
    split_at_first(split_at_first(s, '-').1.unwrap(), '-').0
}

/// The year of the report, 2024 where the field is no `i32`.
pub open spec fn report_year(s: Seq<char>) -> int {
    match parsed_i32(year_field(s)) {
        Some(y) => y as int,
        None => 2024,
    }
}

/// The month of the report, 1 where the field is no `u32`.
pub open spec fn report_month(s: Seq<char>) -> int {
    match parsed_u32(month_field(s)) {
        Some(m) => m as int,
        None => 1,
    }
}

/// The number of days the report for `s` shows.
pub open spec fn days_in_report(s: Seq<char>) -> int {
    days_in_month_for(report_year(s), report_month(s))
}

proof fn lemma_days_before_month_bounds(y: int, m: int)
    requires
        1 <= m <= 12,
    ensures
        0 <= days_before_month(y, m) <= 335,
        m >= 2 ==> days_before_month(y, m) >= 31,
    decreases m,
{
    reveal_with_fuel(days_before_month, 12);
}

proof fn lemma_day_number_bounds(y: int, m: int)
    requires
        -262143 <= y <= 262143,
        1 <= m <= 12,
    ensures
        -100_000_000 <= day_number(y, m, 1) <= 100_000_000,
{
    lemma_days_before_month_bounds(y, m);
}

/// The number of days in the month named by `month_str` (`YYYY-MM`), as the
/// usage report lays them out.
pub fn days_in_month_from_str(month_str: &str) -> (n: u32)
    requires
        has_dash(month_str@),
    ensures
        n == days_in_report(month_str@),
        28 <= n <= 31,
{
    let chars = chars_of(month_str);
    let dash = find_char_from(&chars, 0, '-');
    proof {
        lemma_split_at(chars@, '-', dash as int);
    }
    let year_text = chars_between(&chars, 0, dash);
    assert(chars@.subrange(0, dash as int) =~= chars@.take(dash as int));
    let end = find_char_from(&chars, dash + 1, '-');
    let month_text = chars_between(&chars, dash + 1, end);
    proof {
        let rest = chars@.skip(dash + 1);
        assert forall|j: int| 0 <= j < end - dash - 1 implies rest[j] != '-' by {
            assert(rest[j] == chars@[dash + 1 + j]);
        }
        lemma_split_at(rest, '-', end - dash - 1);
        assert(rest.take(end - dash - 1) =~= chars@.subrange(dash + 1, end as int));
        if end < chars.len() {
            assert(rest[end - dash - 1] == chars@[end as int]);
        } else {
            assert(rest.take(end - dash - 1) =~= rest);
        }
    }
    let year: i32 = match parse_i32(year_text.as_str()) {
        Some(y) => y,
        None => 2024,
    };
    let month: u32 = match parse_u32(month_text.as_str()) {
        Some(m) => m,
        None => 1,
    };
    proof {
        if 1 <= month <= 12 {
            lemma_next_month_distance(year as int, month as int);
            if -262143 <= year <= 262142 {
                lemma_day_number_bounds(year as int, month as int);
                if month < 12 {
                    lemma_day_number_bounds(year as int, month + 1);
                } else {
                    lemma_day_number_bounds(year + 1, 1);
                }
            }
        }
    }
    match first_day_number(year, month) {
        Some(first) => {
            let next = if month == 12 {
                first_day_number(year + 1, 1)
            } else {
                first_day_number(year, month + 1)
            };
            match next {
                Some(following) => (following - first) as u32,
                None => 30,
            }
        },
        None => 30,
    }
}

// ---------------------------------------------------------------------------
// The table
// ---------------------------------------------------------------------------

/// The counters of the first entry of `daily` for `day`, if there is one.
pub open spec fn find_day(daily: Seq<DailyMetrics>, day: int) -> Option<DailyMetrics>
    decreases daily.len(),
{
    if daily.len() == 0 {
        None
    } else if daily[0].day == day {
        Some(daily[0])
    } else {
        find_day(daily.drop_first(), day)
    }
}

/// The five numbers of a day's row: those of its first entry, or zeros.
pub open spec fn day_values(daily: Seq<DailyMetrics>, day: int) -> Seq<int> {
    match find_day(daily, day) {
        Some(m) => m.columns(),
        None => seq![0int, 0int, 0int, 0int, 0int],
    }
}

/// The column sums over days 1 to `days`.
pub open spec fn column_totals(daily: Seq<DailyMetrics>, days: nat) -> Seq<int>
    decreases days,
{
    if days == 0 {
        seq![0int, 0int, 0int, 0int, 0int]
    } else {
        let before = column_totals(daily, (days - 1) as nat);
        let today = day_values(daily, days as int);
        Seq::new(5, |c: int| before[c] + today[c])
    }
}

/// Every running column sum over the month fits in an `i64`.
pub open spec fn totals_fit(daily: Seq<DailyMetrics>, days: nat) -> bool {
    forall|d: nat, c: int|
        d <= days && 0 <= c < 5 ==> i64::MIN <= #[trigger] column_totals(daily, d)[c] <= i64::MAX
}

/// The cells after the first: ` | v` for each value.
pub open spec fn cells(vs: Seq<int>) -> Seq<char>
    decreases vs.len(),
{
    if vs.len() == 0 {
        seq![]
    } else {
        cells(vs.drop_last()) + " | "@ + signed_decimal(vs.last())
    }
}

/// A table row: the label, then the values.
pub open spec fn table_row(label: Seq<char>, vs: Seq<int>) -> Seq<char> {
    "| "@ + label + cells(vs) + " |"@
}

/// The title and the head of the table.
pub open spec fn usage_heading(month: Seq<char>) -> Seq<char> {
    "## Kagi API usage for "@ + month + "\n\n| Day | Extract Requests | Search Requests | Cached Extracts | Cached Searches | Failed Extracts |\n|---:|---:|---:|---:|---:|---:|\n"@
}

/// The rows of days 1 to `days`, each ended by a line break.
pub open spec fn usage_rows(daily: Seq<DailyMetrics>, days: nat) -> Seq<char>
    decreases days,
{
    if days == 0 {
        seq![]
    } else {
        usage_rows(daily, (days - 1) as nat) + table_row(decimal(days), day_values(daily, days as int))
            + "\n"@
    }
}

/// The whole report: heading, a row for every day of the month, then totals.
pub open spec fn usage_markdown(month: Seq<char>, daily: Seq<DailyMetrics>) -> Seq<char> {
    let days = days_in_report(month) as nat;
    usage_heading(month) + usage_rows(daily, days) + table_row(
        "**Total**"@,
        column_totals(daily, days),
    )
}

/// No two entries of `daily` are for the same day.
pub open spec fn distinct_days(daily: Seq<DailyMetrics>) -> bool {
    forall|i: int, j: int| 0 <= i < j < daily.len() ==> daily[i].day != daily[j].day
}

proof fn lemma_find_day(daily: Seq<DailyMetrics>, day: int)
    ensures
        match find_day(daily, day) {
            Some(m) => daily.contains(m) && m.day == day,
            None => forall|i: int| 0 <= i < daily.len() ==> #[trigger] daily[i].day != day,
        },
    decreases daily.len(),
{
    if daily.len() > 0 && daily[0].day != day {
        let t = daily.drop_first();
        lemma_find_day(t, day);
        match find_day(t, day) {
            Some(m) => {
                let k = choose|k: int| 0 <= k < t.len() && t[k] == m;
                assert(daily[k + 1] == m);
            },
            None => {
                assert forall|i: int| 0 <= i < daily.len() implies #[trigger] daily[i].day != day by {
                    if i > 0 {
                        assert(daily[i] == t[i - 1]);
                    }
                }
            },
        }
    } else if daily.len() > 0 {
        assert(daily[0] == daily[0]);
    }
}

proof fn lemma_find_day_same(d1: Seq<DailyMetrics>, d2: Seq<DailyMetrics>, day: int)
    requires
        d1.to_multiset() == d2.to_multiset(),
        distinct_days(d1),
    ensures
        find_day(d1, day) == find_day(d2, day),
{
    d1.to_multiset_ensures();
    d2.to_multiset_ensures();
    lemma_find_day(d1, day);
    lemma_find_day(d2, day);
    match find_day(d2, day) {
        Some(m2) => {
            assert(d2.to_multiset().count(m2) > 0);
            assert(d1.contains(m2));
            let j = choose|j: int| 0 <= j < d1.len() && d1[j] == m2;
            match find_day(d1, day) {
                Some(m1) => {
                    let i = choose|i: int| 0 <= i < d1.len() && d1[i] == m1;
                    if i < j {
                        assert(d1[i].day != d1[j].day);
                    } else if j < i {
                        assert(d1[j].day != d1[i].day);
                    }
                },
                None => {
                    assert(d1[j].day != day);
                },
            }
        },
        None => {
            match find_day(d1, day) {
                Some(m1) => {
                    assert(d1.to_multiset().count(m1) > 0);
                    assert(d2.contains(m1));
                    let j = choose|j: int| 0 <= j < d2.len() && d2[j] == m1;
                    assert(d2[j].day != day);
                },
                None => {},
            }
        },
    }
}

proof fn lemma_rows_by_day_values(d1: Seq<DailyMetrics>, d2: Seq<DailyMetrics>, days: nat)
    requires
        forall|k: int| 1 <= k <= days ==> #[trigger] day_values(d1, k) == day_values(d2, k),
    ensures
        usage_rows(d1, days) == usage_rows(d2, days),
        column_totals(d1, days) == column_totals(d2, days),
    decreases days,
{
    if days > 0 {
        lemma_rows_by_day_values(d1, d2, (days - 1) as nat);
        assert(day_values(d1, days as int) == day_values(d2, days as int));
    }
}

/// With one entry per day, the report does not depend on the order of the
/// daily entries: any reordering of them renders the same report.
pub proof fn lemma_usage_independent_of_entry_order(
    month: Seq<char>,
    d1: Seq<DailyMetrics>,
    d2: Seq<DailyMetrics>,
)
    requires
        d1.to_multiset() == d2.to_multiset(),
        distinct_days(d1),
    ensures
        usage_markdown(month, d1) == usage_markdown(month, d2),
{
    let days = days_in_report(month) as nat;
    assert forall|k: int| 1 <= k <= days implies #[trigger] day_values(d1, k) == day_values(d2, k) by {
        lemma_find_day_same(d1, d2, k);
    }
    lemma_rows_by_day_values(d1, d2, days);
}

/// The values of `v` as integers.
pub open spec fn int_values(v: Seq<i64>) -> Seq<int> {
    v.map_values(|x: i64| x as int)
}

fn push_cells(out: &mut String, vals: &Vec<i64>)
    ensures
        final(out)@ == old(out)@ + cells(int_values(vals@)),
{
    let ghost vs = int_values(vals@);
    let mut i: usize = 0;
    while i < vals.len()
        invariant
            0 <= i <= vals.len(),
            vs == int_values(vals@),
            out@ == old(out)@ + cells(vs.take(i as int)),
        decreases vals.len() - i,
    {
        out.append(" | ");
        push_signed_decimal(out, vals[i]);
        proof {
            let t = vs.take(i + 1);
            assert(t.drop_last() =~= vs.take(i as int));
            assert(t.last() == vals@[i as int] as int);
            assert(out@ =~= old(out)@ + cells(t));
        }
        i += 1;
    }
    assert(vs.take(vals.len() as int) =~= vs);
}

/// The values of the first entry of `daily` for `day`, or zeros.
fn values_of_day(daily: &[DailyMetrics], day: i64) -> (r: Vec<i64>)
    ensures
        int_values(r@) == day_values(daily@, day as int),
{
    let mut i: usize = 0;
    assert(daily@.skip(0) =~= daily@);
    while i < daily.len()
        invariant
            0 <= i <= daily.len(),
            find_day(daily@, day as int) == find_day(daily@.skip(i as int), day as int),
        decreases daily.len() - i,
    {
        proof {
            let rest = daily@.skip(i as int);
            assert(rest.drop_first() =~= daily@.skip(i + 1));
            assert(rest[0] == daily@[i as int]);
        }
        let m = daily[i];
        if m.day == day {
            let r = vec![
                m.total_extract_requests,
                m.total_search_requests,
                m.total_extract_urls_from_cache,
                m.total_search_requests_from_cache,
                m.failed_extract_urls,
            ];
            assert(int_values(r@) =~= m.columns());
            return r;
        }
        i += 1;
    }
    assert(daily@.skip(daily.len() as int) =~= Seq::<DailyMetrics>::empty());
    let r = vec![0i64, 0i64, 0i64, 0i64, 0i64];
    assert(int_values(r@) =~= seq![0int, 0int, 0int, 0int, 0int]);
    r
}

/// Renders the usage report of `month_str` (`YYYY-MM`) from the daily counters
/// of that month. Days without an entry show zeros; where a day has several
/// entries, the first one counts.
pub fn format_usage_markdown(month_str: &str, daily: &[DailyMetrics]) -> (r: String)
    requires
        has_dash(month_str@),
        totals_fit(daily@, days_in_report(month_str@) as nat),
    ensures
        r@ == usage_markdown(month_str@, daily@),
{
    let days = days_in_month_from_str(month_str);
    let ghost n = days as nat;
    let mut out = String::new();
    out.append("## Kagi API usage for ");
    out.append(month_str);
    out.append(
        "\n\n| Day | Extract Requests | Search Requests | Cached Extracts | Cached Searches | Failed Extracts |\n|---:|---:|---:|---:|---:|---:|\n",
    );
    let ghost heading = out@;
    assert(heading =~= usage_heading(month_str@));
    let mut totals: Vec<i64> = vec![0i64, 0i64, 0i64, 0i64, 0i64];
    assert(int_values(totals@) =~= column_totals(daily@, 0));
    let mut day: u32 = 1;
    while day <= days
        invariant
            1 <= day <= days + 1,
            days <= 31,
            n == days as nat,
            totals_fit(daily@, n),
            totals.len() == 5,
            int_values(totals@) == column_totals(daily@, (day - 1) as nat),
            out@ == heading + usage_rows(daily@, (day - 1) as nat),
        decreases days + 1 - day,
    {
        let vals = values_of_day(daily, day as i64);
        let ghost before = column_totals(daily@, (day - 1) as nat);
        let ghost after = column_totals(daily@, day as nat);
        assert(after =~= Seq::new(5, |c: int| before[c] + day_values(daily@, day as int)[c]));
        assert forall|k: int| 0 <= k < 5 implies i64::MIN <= #[trigger] after[k] <= i64::MAX by {
            assert(day as nat <= n);
            assert(i64::MIN <= column_totals(daily@, day as nat)[k] <= i64::MAX);
        }
        assert forall|k: int| 0 <= k < 5 implies totals@[k] as int == #[trigger] before[k] by {
            assert(int_values(totals@)[k] == totals@[k] as int);
        }
        let mut c: usize = 0;
        while c < 5
            invariant
                0 <= c <= 5,
                totals.len() == 5,
                vals.len() == 5,
                int_values(vals@) == day_values(daily@, day as int),
                after == Seq::new(5, |k: int| before[k] + day_values(daily@, day as int)[k]),
                forall|k: int| 0 <= k < 5 ==> i64::MIN <= #[trigger] after[k] <= i64::MAX,
                forall|k: int| 0 <= k < c ==> totals@[k] as int == #[trigger] after[k],
                forall|k: int| c <= k < 5 ==> totals@[k] as int == #[trigger] before[k],
            decreases 5 - c,
        {
            assert(int_values(vals@)[c as int] == vals@[c as int] as int);
            assert(totals@[c as int] as int == before[c as int]);
            assert(after[c as int] == before[c as int] + day_values(daily@, day as int)[c as int]);
            assert(i64::MIN <= after[c as int] <= i64::MAX);
            let t = totals[c] + vals[c];
            totals.set(c, t);
            c += 1;
        }
        assert(int_values(totals@) =~= after);
        out.append("| ");
        push_decimal(&mut out, day as u64);
        push_cells(&mut out, &vals);
        out.append(" |");
        out.append("\n");
        assert(out@ =~= heading + usage_rows(daily@, day as nat));
        day += 1;
    }
    out.append("| ");
    out.append("**Total**");
    push_cells(&mut out, &totals);
    out.append(" |");
    assert(out@ =~= usage_markdown(month_str@, daily@));
    out
}

/// Whether the report of `month_str` can be rendered: the month string holds
/// a `-`, and every running column sum fits in an `i64`.
pub fn usage_report_fits(month_str: &str, daily: &[DailyMetrics]) -> (b: bool)
    ensures
        b == (has_dash(month_str@) && totals_fit(daily@, days_in_report(month_str@) as nat)),
{
    let chars = chars_of(month_str);
    let dash = find_char_from(&chars, 0, '-');
    proof {
        lemma_split_at(chars@, '-', dash as int);
    }
    if dash == chars.len() {
        return false;
    }
    let days = days_in_month_from_str(month_str);
    let ghost n = days as nat;
    let mut totals: Vec<i128> = vec![0i128, 0i128, 0i128, 0i128, 0i128];
    let mut day: u32 = 1;
    assert(column_totals(daily@, 0) == seq![0int, 0int, 0int, 0int, 0int]);
    while day <= days
        invariant
            1 <= day <= days + 1,
            days <= 31,
            n == days as nat,
            has_dash(month_str@),
            n == days_in_report(month_str@),
            totals.len() == 5,
            forall|k: int| 0 <= k < 5 ==> #[trigger] totals@[k] as int == column_totals(
                daily@,
                (day - 1) as nat,
            )[k],
            forall|d: nat, k: int|
                d < day && 0 <= k < 5 ==> i64::MIN <= #[trigger] column_totals(daily@, d)[k]
                    <= i64::MAX,
        decreases days + 1 - day,
    {
        let vals = values_of_day(daily, day as i64);
        let ghost before = column_totals(daily@, (day - 1) as nat);
        let ghost after = column_totals(daily@, day as nat);
        assert(int_values(vals@).len() == vals@.len());
        assert(vals.len() == 5);
        assert(after =~= Seq::new(5, |c: int| before[c] + day_values(daily@, day as int)[c]));
        assert forall|k: int| 0 <= k < 5 implies i64::MIN <= #[trigger] before[k] <= i64::MAX by {
            assert(i64::MIN <= column_totals(daily@, (day - 1) as nat)[k] <= i64::MAX);
        }
        let mut c: usize = 0;
        while c < 5
            invariant
                0 <= c <= 5,
                totals.len() == 5,
                vals.len() == 5,
                int_values(vals@) == day_values(daily@, day as int),
                after == Seq::new(5, |k: int| before[k] + day_values(daily@, day as int)[k]),
                forall|k: int| 0 <= k < 5 ==> i64::MIN <= #[trigger] before[k] <= i64::MAX,
                forall|k: int| 0 <= k < c ==> #[trigger] totals@[k] as int == after[k],
                forall|k: int| c <= k < 5 ==> #[trigger] totals@[k] as int == before[k],
            decreases 5 - c,
        {
            assert(int_values(vals@)[c as int] == vals@[c as int] as int);
            assert(totals@[c as int] as int == before[c as int]);
            let t = totals[c] + vals[c] as i128;
            totals.set(c, t);
            c += 1;
        }
        let mut k: usize = 0;
        while k < 5
            invariant
                0 <= k <= 5,
                1 <= day <= days,
                n == days as nat,
                has_dash(month_str@),
                n == days_in_report(month_str@),
                after == column_totals(daily@, day as nat),
                totals.len() == 5,
                forall|j: int| 0 <= j < 5 ==> #[trigger] totals@[j] as int == after[j],
                forall|j: int| 0 <= j < k ==> i64::MIN <= #[trigger] after[j] <= i64::MAX,
            decreases 5 - k,
        {
            assert(totals@[k as int] as int == after[k as int]);
            if totals[k] < -9223372036854775808i128 || totals[k] > 9223372036854775807i128 {
                proof {
                    assert(day as nat <= n);
                    assert(!(i64::MIN <= column_totals(daily@, day as nat)[k as int] <= i64::MAX));
                    assert(!totals_fit(daily@, n));
                }
                return false;
            }
            k += 1;
        }
        assert forall|d: nat, j: int| d < day + 1 && 0 <= j < 5 implies i64::MIN
            <= #[trigger] column_totals(daily@, d)[j] <= i64::MAX by {
            if d == day as nat {
                assert(column_totals(daily@, d)[j] == after[j]);
            }
        }
        day += 1;
    }
    true
}

} // verus!
