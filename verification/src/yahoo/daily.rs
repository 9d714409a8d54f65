//! Daily OHLCV from the Yahoo chart API: the request window, the calendar
//! conversions between `YYYY-MM-DD` and unix seconds, and the per-day rows.

use vstd::prelude::*;

use crate::calendar::{
    day_field, day_text, days_before_year, epoch_day, field_value, is_valid_date_text,
    is_valid_ymd, lemma_date_of_day, lemma_day_has_date, lemma_day_of_year_bounds,
    lemma_days_before_year_monotone, lemma_era_day, lemma_leap_shift, lemma_month_of_year,
    lemma_render_fields, lemma_render_ymd_valid, lemma_year_of_era, month_field, month_of_mp,
    mp_year_has_leap_day, padded_chars, render_padded, render_ymd, year_field,
};
use crate::api::{query_pair, query_view, validate_date};
use crate::error::Error;
use crate::text::{chars_of, string_from_chars};

verus! {

/// Day number (days since 1970-01-01) of `y-m-d`.
fn days_from_civil(y: i64, m: i64, d: i64) -> (r: i64)
    requires
        1 <= m <= 12,
        1 <= d <= 31,
        -1_000_000_000 <= y <= 1_000_000_000,
    ensures
        r == epoch_day(y as int, m as int, d as int),
        0 <= y <= 9999 ==> -1_000_000 <= r <= 3_000_000,
{
    let y = if m <= 2 {
        y - 1
    } else {
        y
    };
    let era: i64 = if y >= 0 {
        y / 400
    } else {
        -((399 - y) / 400)
    };
    let yoe: i64 = y - era * 400;
    let mp: i64 = if m > 2 {
        m - 3
    } else {
        m + 9
    };
    let doy: i64 = (153 * mp + 2) / 5 + d - 1;
    let doe: i64 = yoe * 365 + yoe / 4 - yoe / 100 + doy;
    proof {
        assert(0 <= yoe <= 399);
        assert(month_of_mp(mp as int) == m);
        lemma_era_day(era as int, yoe as int, mp as int, d as int);
    }
    era * 146_097 + doe - 719_468
}

/// The date `(year, month, day)` of day number `z` (days since 1970-01-01).
fn civil_from_days(z: i64) -> (r: (i64, u32, u32))
    requires
        -1_000_000_000_000_000 <= z <= 1_000_000_000_000_000,
    ensures
        is_valid_ymd(r.0 as int, r.1 as int, r.2 as int),
        epoch_day(r.0 as int, r.1 as int, r.2 as int) == z,
{
    let z = z + 719_468;
    let era: i64 = if z >= 0 {
        z / 146_097
    } else {
        -((146_096 - z) / 146_097)
    };
    let doe: i64 = z - era * 146_097;
    assert(0 <= doe <= 146096);
    let yoe: i64 = (doe - doe / 1460 + doe / 36524 - doe / 146_096) / 365;
    proof {
        lemma_year_of_era(doe as u32, yoe as u32);
    }
    let y: i64 = yoe + era * 400;
    let doy: i64 = doe - (365 * yoe + yoe / 4 - yoe / 100);
    proof {
        lemma_month_of_year(doy as int, mp_year_has_leap_day(yoe as int));
    }
    let mp: i64 = (5 * doy + 2) / 153;
    let d: i64 = doy - (153 * mp + 2) / 5 + 1;
    let m: i64 = if mp < 10 {
        mp + 3
    } else {
        mp - 9
    };
    let year: i64 = if m <= 2 {
        y + 1
    } else {
        y
    };
    proof {
        lemma_era_day(era as int, yoe as int, mp as int, d as int);
        lemma_leap_shift(era as int, yoe + 1);
    }
    (year, m as u32, d as u32)
}


/// `YYYY-MM-DD` (assumed already validated) → unix seconds at 00:00 UTC.
pub fn ymd_to_unix(s: &str) -> (r: i64)
    requires
        is_valid_date_text(s@),
    ensures
        r == epoch_day(year_field(s@), month_field(s@), day_field(s@)) * 86400,
        -86_400_000_000 <= r <= 259_200_000_000,
{
    let cs = chars_of(s);
    let y = field_value(&cs, 0, 4);
    let m = field_value(&cs, 5, 7);
    let d = field_value(&cs, 8, 10);
    days_from_civil(y, m, d) * 86_400
}

/// unix seconds (+ `gmtoffset`) → `YYYY-MM-DD` in that local offset.
pub fn unix_to_ymd(secs: i64, gmtoffset: i64) -> (r: String)
    requires
        i64::MIN <= secs + gmtoffset <= i64::MAX,
    ensures
        r@ == day_text((secs + gmtoffset) / 86400),
{
    let t: i64 = secs + gmtoffset;
    let days: i64 = if t >= 0 {
        t / 86_400
    } else {
        -((-(t + 1)) / 86_400) - 1
    };
    assert(days == (secs + gmtoffset) / 86400);
    let (y, m, d) = civil_from_days(days);
    proof {
        lemma_date_of_day(y as int, m as int, d as int);
    }
    let mut out = padded_chars(y, 4);
    out.push('-');
    let mm = padded_chars(m as i64, 2);
    let dd = padded_chars(d as i64, 2);
    let mut i: usize = 0;
    let ghost base = out@;
    while i < mm.len()
        invariant
            i <= mm.len(),
            out@ == base + mm@.take(i as int),
        decreases mm.len() - i,
    {
        out.push(mm[i]);
        assert(mm@.take(i as int).push(mm@[i as int]) =~= mm@.take(i + 1));
        i = i + 1;
    }
    assert(mm@.take(mm.len() as int) =~= mm@);
    out.push('-');
    let ghost base2 = out@;
    let mut j: usize = 0;
    while j < dd.len()
        invariant
            j <= dd.len(),
            out@ == base2 + dd@.take(j as int),
        decreases dd.len() - j,
    {
        out.push(dd[j]);
        assert(dd@.take(j as int).push(dd@[j as int]) =~= dd@.take(j + 1));
        j = j + 1;
    }
    assert(dd@.take(dd.len() as int) =~= dd@);
    assert(out@ =~= render_ymd(y as int, m as int, d as int));
    string_from_chars(&out)
}


/// A valid `YYYY-MM-DD` string converted to unix seconds and back (at offset
/// zero) gives the same string.
pub proof fn lemma_ymd_unix_roundtrip(s: Seq<char>)
    requires
        is_valid_date_text(s),
    ensures
        day_text((epoch_day(year_field(s), month_field(s), day_field(s)) * 86400 + 0) / 86400)
            == s,
{
    let e = epoch_day(year_field(s), month_field(s), day_field(s));
    assert((e * 86400 + 0) / 86400 == e) by (nonlinear_arith);
    lemma_date_of_day(year_field(s), month_field(s), day_field(s));
    lemma_render_fields(s);
}


/// For a time whose UTC date has a year in 0..=9999, the date text
/// `unix_to_ymd(t, 0)` gives is a valid `YYYY-MM-DD` string, and converting
/// it back with `ymd_to_unix` gives 00:00 UTC of that day: `t` rounded down
/// to a multiple of 86400.
pub proof fn lemma_unix_ymd_midnight(t: int)
    requires
        -62_167_219_200 <= t < 253_402_300_800,
    ensures
        is_valid_date_text(day_text((t + 0) / 86400)),
        date_seconds(day_text((t + 0) / 86400)) == t - t % 86400,
{
    let z = t / 86400;
    assert(-719528 <= z <= 2932896);
    let r = lemma_day_has_date(z);
    let (y, m, d) = r;
    lemma_date_of_day(y, m, d);
    lemma_day_of_year_bounds(y, m, d);
    if y < 0 {
        lemma_days_before_year_monotone(y, 0);
        assert(days_before_year(0) == 0);
        assert(days_before_year(1970) == 719528);
    }
    if y > 9999 {
        lemma_days_before_year_monotone(10000, y);
        assert(days_before_year(10000) == 3652425);
        assert(days_before_year(1970) == 719528);
    }
    assert(0 <= y <= 9999);
    lemma_render_ymd_valid(y, m, d);
    assert(day_text(z) == render_ymd(y, m, d));
    assert(date_seconds(day_text(z)) == z * 86400);
}

/// Range used when no explicit window is given.
pub const DEFAULT_RANGE: &'static str = "1mo";

/// Whether an optional date argument is absent or a real date.
pub open spec fn optional_date_ok(d: Option<&str>) -> bool {
    match d {
        Some(v) => is_valid_date_text(v@),
        None => true,
    }
}

/// Unix seconds at 00:00 UTC of a valid date string.
pub open spec fn date_seconds(s: Seq<char>) -> int {
    epoch_day(year_field(s), month_field(s), day_field(s)) * 86400
}

/// The chart query for a daily window: `interval=1d`, `events=div,splits`,
/// then either `period1`/`period2` (from `from` to the end of `to`, or to
/// `now` when `to` is absent) or, without `from`, `range`.
pub open spec fn daily_query_spec(from: Option<&str>, to: Option<&str>, range: Seq<char>, now: i64) -> Seq<(Seq<char>, Seq<char>)> {
    let base = seq![("interval"@, "1d"@), ("events"@, "div,splits"@)];
    match from {
        Some(f) => base + seq![
            ("period1"@, render_padded(date_seconds(f@), 1)),
            ("period2"@, render_padded(
                match to {
                    Some(t) => date_seconds(t@) + 86400,
                    None => now as int,
                },
                1,
            )),
        ],
        None => base + seq![("range"@, range)],
    }
}

/// The chart query of the daily window. Both dates are validated first,
/// `from` before `to`, even where `to` goes unused.
pub fn query(from: Option<&str>, to: Option<&str>, range: &str, now: i64) -> (res: Result<
    Vec<(String, String)>,
    Error,
>)
    ensures
        !optional_date_ok(from) ==> (res matches Err(Error::InvalidDate { input }) && input@
            == from->0@),
        optional_date_ok(from) && !optional_date_ok(to) ==> (res matches Err(
            Error::InvalidDate { input },
        ) && input@ == to->0@),
        optional_date_ok(from) && optional_date_ok(to) ==> (res matches Ok(q) && query_view(q@)
            == daily_query_spec(from, to, range@, now)),
{
    let from = match from {
        Some(f) => Some(validate_date(f)?),
        None => None,
    };
    let to = match to {
        Some(t) => Some(validate_date(t)?),
        None => None,
    };
    let mut q: Vec<(String, String)> = Vec::new();
    q.push(query_pair("interval", "1d"));
    q.push(query_pair("events", "div,splits"));
    let ghost base = query_view(q@);
    assert(base =~= seq![("interval"@, "1d"@), ("events"@, "div,splits"@)]);
    match from {
        Some(f) => {
            let w = window_pairs(f, to, now);
            q.push(w.0);
            q.push(w.1);
            assert(query_view(q@) =~= daily_query_spec(Some(f), to, range@, now));
        },
        None => {
            q.push(query_pair("range", range));
            assert(query_view(q@) =~= daily_query_spec(None, to, range@, now));
        },
    }
    Ok(q)
}

/// The `period1`/`period2` pairs of an explicit window.
fn window_pairs(from: &str, to: Option<&str>, now: i64) -> (res: ((String, String), (String, String)))
    requires
        is_valid_date_text(from@),
        optional_date_ok(to),
    ensures
        res.0.0@ == "period1"@,
        res.0.1@ == render_padded(date_seconds(from@), 1),
        res.1.0@ == "period2"@,
        res.1.1@ == render_padded(
            match to {
                Some(t) => date_seconds(t@) + 86400,
                None => now as int,
            },
            1,
        ),
{
    let s1 = ymd_to_unix(from);
    let p1 = padded_chars(s1, 1);
    let p1s = string_from_chars(&p1);
    let s2: i64 = match to {
        Some(t) => ymd_to_unix(t) + 86_400,
        None => now,
    };
    let p2 = padded_chars(s2, 1);
    let p2s = string_from_chars(&p2);
    (query_pair("period1", p1s.as_str()), query_pair("period2", p2s.as_str()))
}

/// One output row: the index into the chart's parallel arrays and the
/// local calendar date of that bar.
#[derive(Debug, Clone, PartialEq, Eq)]
pub struct DayRow {
    pub index: usize,
    pub date: String,
}

/// Day number (days since 1970-01-01) of the `i`-th timestamp in the
/// exchange's offset.
pub open spec fn row_day(ts: Seq<Option<i64>>, gmtoffset: i64, i: int) -> int {
    (ts[i]->0 + gmtoffset) / 86400
}

/// Whether the row of timestamp `a` comes before that of timestamp `b`: an
/// earlier day, or the same day and an earlier position upstream.
pub open spec fn row_before(ts: Seq<Option<i64>>, gmtoffset: i64, a: int, b: int) -> bool {
    row_day(ts, gmtoffset, a) < row_day(ts, gmtoffset, b) || (row_day(ts, gmtoffset, a)
        == row_day(ts, gmtoffset, b) && a < b)
}

/// A row for an integer timestamp, dated in the exchange's offset.
pub open spec fn row_ok(ts: Seq<Option<i64>>, gmtoffset: i64, r: DayRow) -> bool {
    &&& r.index < ts.len()
    &&& ts[r.index as int] is Some
    &&& r.date@ == day_text(row_day(ts, gmtoffset, r.index as int))
}

/// Rows in date order, ties kept in upstream order.
pub open spec fn rows_ordered(ts: Seq<Option<i64>>, gmtoffset: i64, rows: Seq<DayRow>) -> bool {
    forall|a: int, b: int|
        0 <= a < b < rows.len() ==> row_before(
            ts,
            gmtoffset,
            #[trigger] rows[a].index as int,
            #[trigger] rows[b].index as int,
        )
}

/// Every integer timestamp among the first `n` has a row.
pub open spec fn rows_cover(ts: Seq<Option<i64>>, rows: Seq<DayRow>, n: int) -> bool {
    forall|i: int|
        0 <= i < n && #[trigger] ts[i] is Some ==> exists|j: int|
            0 <= j < rows.len() && rows[j].index == i
}

/// The daily rows of `ts`: one per integer timestamp, dated in the
/// exchange's offset, sorted by date ascending (same-day rows in upstream
/// order).
pub open spec fn daily_rows(ts: Seq<Option<i64>>, gmtoffset: i64, rows: Seq<DayRow>) -> bool {
    &&& forall|j: int| 0 <= j < rows.len() ==> row_ok(ts, gmtoffset, #[trigger] rows[j])
    &&& rows_ordered(ts, gmtoffset, rows)
    &&& rows_cover(ts, rows, ts.len() as int)
}

/// Whether every integer timestamp can be shifted by `gmtoffset` within `i64`.
pub open spec fn offsets_fit(ts: Seq<Option<i64>>, gmtoffset: i64) -> bool {
    forall|i: int|
        0 <= i < ts.len() ==> match #[trigger] ts[i] {
            Some(v) => i64::MIN <= v + gmtoffset <= i64::MAX,
            None => true,
        }
}

/// `t / 86400`, rounded toward negative infinity.
fn floor_day(t: i64) -> (r: i64)
    ensures
        r == t / 86400,
{
    if t >= 0 {
        t / 86_400
    } else {
        -((-(t + 1)) / 86_400) - 1
    }
}

/// Zip the chart's timestamps into per-day rows: timestamps that are not
/// integers (`None`) are skipped, the others dated in the exchange's offset,
/// and the rows come sorted by date ascending (same-day rows in upstream
/// order).
pub fn rows(timestamps: &Vec<Option<i64>>, gmtoffset: i64) -> (res: Vec<DayRow>)
    requires
        offsets_fit(timestamps@, gmtoffset),
    ensures
        daily_rows(timestamps@, gmtoffset, res@),
{
    let ghost ts = timestamps@;
    let mut out: Vec<DayRow> = Vec::new();
    let mut days: Vec<i64> = Vec::new();
    let mut i: usize = 0;
    while i < timestamps.len()
        invariant
            ts == timestamps@,
            i <= timestamps.len(),
            offsets_fit(ts, gmtoffset),
            out.len() == days.len(),
            forall|j: int| 0 <= j < out.len() ==> row_ok(ts, gmtoffset, #[trigger] out@[j]),
            forall|j: int| 0 <= j < out.len() ==> (#[trigger] out@[j]).index < i,
            forall|j: int|
                0 <= j < out.len() ==> days@[j] == row_day(ts, gmtoffset, (#[trigger] out@[j]).index as int),
            rows_ordered(ts, gmtoffset, out@),
            rows_cover(ts, out@, i as int),
        decreases timestamps.len() - i,
    {
        match timestamps[i] {
            Some(secs) => {
                assert(match ts[i as int] {
                    Some(v) => i64::MIN <= v + gmtoffset <= i64::MAX,
                    None => true,
                });
                let d = floor_day(secs + gmtoffset);
                let date = unix_to_ymd(secs, gmtoffset);
                let mut k: usize = 0;
                while k < days.len() && days[k] <= d
                    invariant
                        k <= days.len(),
                        forall|j: int| 0 <= j < k ==> days@[j] <= d,
                    decreases days.len() - k,
                {
                    k = k + 1;
                }
                let row = DayRow { index: i, date };
                assert(row_ok(ts, gmtoffset, row));
                proof {
                    // Rows from `k` on are on later days than the new one.
                    assert forall|j: int| k <= j < out.len() implies days@[j] > d by {
                        if j > k {
                            assert(row_before(ts, gmtoffset, out@[k as int].index as int, out@[j].index as int));
                        }
                    }
                }
                let ghost prev = out@;
                let ghost prev_days = days@;
                out.insert(k, row);
                days.insert(k, d);
                proof {
                    assert forall|j: int| 0 <= j < out.len() implies row_ok(ts, gmtoffset, #[trigger] out@[j])
                        && (#[trigger] out@[j]).index < i + 1
                        && days@[j] == row_day(ts, gmtoffset, out@[j].index as int) by {
                        if j < k {
                            assert(out@[j] == prev[j]);
                        } else if j > k {
                            assert(out@[j] == prev[j - 1]);
                            assert(days@[j] == prev_days[j - 1]);
                        }
                    }
                    assert forall|a: int, b: int| 0 <= a < b < out.len() implies row_before(
                        ts,
                        gmtoffset,
                        #[trigger] out@[a].index as int,
                        #[trigger] out@[b].index as int,
                    ) by {
                        let ia = out@[a].index as int;
                        let ib = out@[b].index as int;
                        if b < k {
                            assert(out@[a] == prev[a] && out@[b] == prev[b]);
                            assert(row_before(ts, gmtoffset, prev[a].index as int, prev[b].index as int));
                        } else if a > k {
                            assert(out@[a] == prev[a - 1] && out@[b] == prev[b - 1]);
                            assert(row_before(ts, gmtoffset, prev[a - 1].index as int, prev[b - 1].index as int));
                        } else if a < k && b > k {
                            assert(out@[a] == prev[a] && out@[b] == prev[b - 1]);
                            assert(row_before(ts, gmtoffset, prev[a].index as int, prev[b - 1].index as int));
                        } else if a == k {
                            assert(out@[b] == prev[b - 1]);
                            assert(prev_days[b - 1] > d);
                        } else {
                            assert(out@[a] == prev[a]);
                            assert(prev_days[a] <= d);
                            assert(prev[a].index < i);
                        }
                    }
                    assert forall|t: int| 0 <= t < i + 1 && #[trigger] ts[t] is Some implies exists|j: int|
                        0 <= j < out.len() && out@[j].index == t by {
                        if t == i {
                            assert(out@[k as int].index == t);
                        } else {
                            let j0 = choose|j: int| 0 <= j < prev.len() && prev[j].index == t;
                            if j0 < k {
                                assert(out@[j0].index == t);
                            } else {
                                assert(out@[j0 + 1].index == t);
                            }
                        }
                    }
                }
            },
            None => {
                proof {
                    assert forall|t: int| 0 <= t < i + 1 && #[trigger] ts[t] is Some implies exists|j: int|
                        0 <= j < out.len() && out@[j].index == t by {
                        assert(t != i);
                    }
                }
            },
        }
        i = i + 1;
    }
    out
}

} // verus!
