//! The proleptic Gregorian calendar as mathematics: leap years, month
//! lengths, day numbers counted from 1970-01-01, and the decimal renderings
//! used by `YYYY-MM-DD` strings.

use vstd::prelude::*;

use crate::text::string_from_chars;

verus! {

/// Gregorian leap-year rule.
pub open spec fn is_leap_year(y: int) -> bool {
    (y % 4 == 0 && y % 100 != 0) || y % 400 == 0
}

/// Number of days in year `y`.
pub open spec fn year_length(y: int) -> int {
    if is_leap_year(y) {
        366
    } else {
        365
    }
}

/// Number of days in month `m` (1 = January) of year `y`; 0 for a month outside 1..=12.
pub open spec fn month_length(y: int, m: int) -> int {
    if m == 2 {
        if is_leap_year(y) {
            29
        } else {
            28
        }
    } else if m == 4 || m == 6 || m == 9 || m == 11 {
        30
    } else if 1 <= m <= 12 {
        31
    } else {
        0
    }
}

/// A real calendar date: month in 1..=12 and day within that month.
pub open spec fn is_valid_ymd(y: int, m: int, d: int) -> bool {
    1 <= m <= 12 && 1 <= d <= month_length(y, m)
}

/// Days of year `y` that precede the first day of month `m` (1..=12).
pub open spec fn days_before_month(y: int, m: int) -> int {
    let base: int = if m <= 1 {
        0
    } else if m == 2 {
        31
    } else if m == 3 {
        59
    } else if m == 4 {
        90
    } else if m == 5 {
        120
    } else if m == 6 {
        151
    } else if m == 7 {
        181
    } else if m == 8 {
        212
    } else if m == 9 {
        243
    } else if m == 10 {
        273
    } else if m == 11 {
        304
    } else {
        334
    };
    if m > 2 && is_leap_year(y) {
        base + 1
    } else {
        base
    }
}

/// Days from 0000-01-01 to the first day of year `y` (negative for `y < 0`):
/// 365 per year plus one per leap year in between. `lemma_year_step` shows it
/// grows by `year_length(y)` from `y` to `y + 1`.
pub open spec fn days_before_year(y: int) -> int {
    365 * y + (y + 3) / 4 - (y + 99) / 100 + (y + 399) / 400
}

/// The day number of `y-m-d`: days since 1970-01-01 (negative before it).
pub open spec fn epoch_day(y: int, m: int, d: int) -> int {
    days_before_year(y) - days_before_year(1970) + days_before_month(y, m) + d - 1
}

/// The count of days before a year advances by that year's length.
#[verifier::spinoff_prover]
#[verifier::rlimit(40)]
pub proof fn lemma_year_step(y: int)
    ensures
        days_before_year(y + 1) == days_before_year(y) + year_length(y),
{
    lemma_div_step(y + 3, 4);
    lemma_div_step(y + 99, 100);
    lemma_div_step(y + 399, 400);
    assert((y + 4) % 4 == y % 4) by {
        lemma_mod_shift(y, 4);
    }
    assert((y + 100) % 100 == y % 100) by {
        lemma_mod_shift(y, 100);
    }
    assert((y + 400) % 400 == y % 400) by {
        lemma_mod_shift(y, 400);
    }
}

proof fn lemma_div_step(x: int, b: int)
    requires
        b == 4 || b == 100 || b == 400,
    ensures
        (x + 1) / b == x / b + (if (x + 1) % b == 0 { 1int } else { 0int }),
{
}

proof fn lemma_mod_shift(y: int, b: int)
    requires
        b == 4 || b == 100 || b == 400,
    ensures
        (y + b) % b == y % b,
{
}

/// Month starts advance by the month lengths, and a year's months fill it exactly.
pub proof fn lemma_month_step(y: int, m: int)
    requires
        1 <= m <= 12,
    ensures
        m < 12 ==> days_before_month(y, m + 1) == days_before_month(y, m) + month_length(y, m),
        m == 12 ==> days_before_month(y, m) + month_length(y, m) == year_length(y),
{
}

/// Consecutive years: the earlier year's days all come before the later year's.
pub proof fn lemma_days_before_year_monotone(a: int, b: int)
    requires
        a <= b,
    ensures
        days_before_year(a) <= days_before_year(b),
        a < b ==> days_before_year(a) + year_length(a) <= days_before_year(b),
    decreases b - a,
{
    if a < b {
        lemma_year_step(a);
        lemma_days_before_year_monotone(a + 1, b);
    }
}

/// The day of year of a valid date lies within that year.
pub proof fn lemma_day_of_year_bounds(y: int, m: int, d: int)
    requires
        is_valid_ymd(y, m, d),
    ensures
        0 <= days_before_month(y, m) + d - 1 < year_length(y),
{
}

/// Different real dates have different day numbers.
pub proof fn lemma_epoch_day_injective(y1: int, m1: int, d1: int, y2: int, m2: int, d2: int)
    requires
        is_valid_ymd(y1, m1, d1),
        is_valid_ymd(y2, m2, d2),
        epoch_day(y1, m1, d1) == epoch_day(y2, m2, d2),
    ensures
        y1 == y2 && m1 == m2 && d1 == d2,
{
    lemma_day_of_year_bounds(y1, m1, d1);
    lemma_day_of_year_bounds(y2, m2, d2);
    if y1 < y2 {
        lemma_days_before_year_monotone(y1, y2);
    } else if y2 < y1 {
        lemma_days_before_year_monotone(y2, y1);
    }
    assert(y1 == y2);
    if m1 < m2 {
        lemma_month_gap(y1, m1, m2);
    } else if m2 < m1 {
        lemma_month_gap(y1, m2, m1);
    }
}

proof fn lemma_month_gap(y: int, a: int, b: int)
    requires
        1 <= a < b <= 12,
    ensures
        days_before_month(y, a) + month_length(y, a) <= days_before_month(y, b),
{
}

// ---------------------------------------------------------------------------
// Decimal renderings
// ---------------------------------------------------------------------------

/// The ASCII digit for `k` in 0..=9.
pub open spec fn digit_char(k: int) -> char {
    (k + 48) as char
}

/// Whether `c` is an ASCII decimal digit.
pub open spec fn is_digit(c: char) -> bool {
    '0' <= c <= '9'
}

/// The value of an ASCII digit.
pub open spec fn digit_value(c: char) -> int {
    (c as int) - 48
}

/// Decimal digits of `n`, without leading zeros (`"0"` for zero).
pub open spec fn dec_digits(n: nat) -> Seq<char>
    decreases n,
{
    if n < 10 {
        seq![digit_char(n as int)]
    } else {
        dec_digits(n / 10).push(digit_char((n % 10) as int))
    }
}

/// `s` left-padded with `'0'` up to `width` characters.
pub open spec fn zero_pad(s: Seq<char>, width: nat) -> Seq<char> {
    if s.len() >= width {
        s
    } else {
        Seq::new((width - s.len()) as nat, |i: int| '0') + s
    }
}

/// `v` in decimal, zero-padded to at least `width` characters with the sign
/// counted in the width, as `format!("{v:0width$}")` renders an integer.
pub open spec fn render_padded(v: int, width: nat) -> Seq<char> {
    if v < 0 {
        seq!['-'] + zero_pad(dec_digits((-v) as nat), if width >= 1 { (width - 1) as nat } else { 0 })
    } else {
        zero_pad(dec_digits(v as nat), width)
    }
}

/// The value of the decimal digit string `s`.
pub open spec fn digits_value(s: Seq<char>) -> int
    decreases s.len(),
{
    if s.len() == 0 {
        0
    } else {
        digits_value(s.drop_last()) * 10 + digit_value(s.last())
    }
}

/// Whether every character of `s` is an ASCII digit.
pub open spec fn all_digits(s: Seq<char>) -> bool {
    forall|i: int| 0 <= i < s.len() ==> is_digit(#[trigger] s[i])
}

/// `YYYY-MM-DD` rendering of a date, each field zero-padded as `{:04}-{:02}-{:02}` gives it.
pub open spec fn render_ymd(y: int, m: int, d: int) -> Seq<char> {
    render_padded(y, 4) + seq!['-'] + render_padded(m, 2) + seq!['-'] + render_padded(d, 2)
}

/// The shape `DDDD-DD-DD` of ten ASCII characters.
pub open spec fn is_date_shape(s: Seq<char>) -> bool {
    &&& s.len() == 10
    &&& s[4] == '-'
    &&& s[7] == '-'
    &&& all_digits(s.subrange(0, 4))
    &&& all_digits(s.subrange(5, 7))
    &&& all_digits(s.subrange(8, 10))
}

/// Year field of a date-shaped string.
pub open spec fn year_field(s: Seq<char>) -> int {
    digits_value(s.subrange(0, 4))
}

/// Month field of a date-shaped string.
pub open spec fn month_field(s: Seq<char>) -> int {
    digits_value(s.subrange(5, 7))
}

/// Day field of a date-shaped string.
pub open spec fn day_field(s: Seq<char>) -> int {
    digits_value(s.subrange(8, 10))
}

/// A `YYYY-MM-DD` string naming a real calendar date.
pub open spec fn is_valid_date_text(s: Seq<char>) -> bool {
    is_date_shape(s) && is_valid_ymd(year_field(s), month_field(s), day_field(s))
}

/// Rendering the fields of a date-shaped string gives the string back.
pub proof fn lemma_render_fields(s: Seq<char>)
    requires
        is_date_shape(s),
    ensures
        render_ymd(year_field(s), month_field(s), day_field(s)) =~= s,
{
    let ys = s.subrange(0, 4);
    let ms = s.subrange(5, 7);
    let ds = s.subrange(8, 10);
    assert(is_digit(ys[0]) && is_digit(ys[1]) && is_digit(ys[2]) && is_digit(ys[3]));
    assert(is_digit(ms[0]) && is_digit(ms[1]));
    assert(is_digit(ds[0]) && is_digit(ds[1]));
    lemma_render_four(ys);
    lemma_render_two(ms);
    lemma_render_two(ds);
}

proof fn lemma_digit_roundtrip(c: char)
    requires
        is_digit(c),
    ensures
        digit_char(digit_value(c)) == c,
        0 <= digit_value(c) <= 9,
{
}

proof fn lemma_render_two(s: Seq<char>)
    requires
        s.len() == 2,
        is_digit(s[0]),
        is_digit(s[1]),
    ensures
        render_padded(digits_value(s), 2) =~= s,
{
    let a = digit_value(s[0]);
    let b = digit_value(s[1]);
    lemma_digit_roundtrip(s[0]);
    lemma_digit_roundtrip(s[1]);
    assert(s.drop_last().drop_last() =~= Seq::<char>::empty());
    assert(digits_value(s.drop_last().drop_last()) == 0);
    assert(s.drop_last().last() == s[0]);
    assert(digits_value(s.drop_last()) == a);
    assert(s.last() == s[1]);
    let v = a * 10 + b;
    assert(digits_value(s) == v);
    if a == 0 {
        assert(dec_digits(v as nat) == seq![digit_char(b)]);
    } else {
        assert(v / 10 == a);
        assert(v % 10 == b);
        assert(dec_digits(v as nat) == dec_digits(a as nat).push(digit_char(b)));
    }
}

proof fn lemma_render_four(s: Seq<char>)
    requires
        s.len() == 4,
        is_digit(s[0]),
        is_digit(s[1]),
        is_digit(s[2]),
        is_digit(s[3]),
    ensures
        render_padded(digits_value(s), 4) =~= s,
{
    let a = digit_value(s[0]);
    let b = digit_value(s[1]);
    let c = digit_value(s[2]);
    let e = digit_value(s[3]);
    lemma_digit_roundtrip(s[0]);
    lemma_digit_roundtrip(s[1]);
    lemma_digit_roundtrip(s[2]);
    lemma_digit_roundtrip(s[3]);
    let s1 = s.drop_last().drop_last().drop_last();
    let s2 = s.drop_last().drop_last();
    let s3 = s.drop_last();
    assert(s1.drop_last() =~= Seq::<char>::empty());
    assert(digits_value(s1.drop_last()) == 0);
    assert(s1.last() == s[0]);
    assert(s2.last() == s[1]);
    assert(s3.last() == s[2]);
    assert(s.last() == s[3]);
    assert(s2.drop_last() == s1);
    assert(s3.drop_last() == s2);
    assert(digits_value(s1) == a);
    assert(digits_value(s2) == a * 10 + b);
    assert(digits_value(s3) == (a * 10 + b) * 10 + c);
    let v = ((a * 10 + b) * 10 + c) * 10 + e;
    assert(digits_value(s) == v);
    let v1 = (a * 10 + b) * 10 + c;
    let v2 = a * 10 + b;
    assert(v / 10 == v1 && v % 10 == e);
    assert(v1 / 10 == v2 && v1 % 10 == c);
    assert(v2 / 10 == a && v2 % 10 == b);
    if v < 10 {
        assert(dec_digits(v as nat) =~= seq![digit_char(e)]);
    } else if v < 100 {
        assert(dec_digits(v1 as nat) =~= seq![digit_char(c)]);
    } else if v < 1000 {
        assert(dec_digits(v2 as nat) =~= seq![digit_char(b)]);
        assert(dec_digits(v1 as nat) =~= seq![digit_char(b), digit_char(c)]);
    } else {
        assert(dec_digits(a as nat) =~= seq![digit_char(a)]);
        assert(dec_digits(v2 as nat) =~= seq![digit_char(a), digit_char(b)]);
        assert(dec_digits(v1 as nat) =~= seq![digit_char(a), digit_char(b), digit_char(c)]);
    }
}


// ---------------------------------------------------------------------------
// Era arithmetic: 400-year eras of March-based years, as in the day-number
// conversions of `yahoo::daily`.
// ---------------------------------------------------------------------------

/// Month (1..=12) of the March-based month index `mp` (0 = March).
pub open spec fn month_of_mp(mp: int) -> int {
    if mp < 10 {
        mp + 3
    } else {
        mp - 9
    }
}

/// Days of the March-based year that precede March-based month `mp`.
pub open spec fn days_before_mp(mp: int) -> int {
    (153 * mp + 2) / 5
}

/// Day number of the date at day `doy` of March-based year `yoe` of era `era`,
/// written the way the conversion computes it.
pub open spec fn era_day(era: int, yoe: int, doy: int) -> int {
    era * 146097 + yoe * 365 + yoe / 4 - yoe / 100 + doy - 719468
}

proof fn lemma_days_before_year_shift(era: int, yoe: int)
    ensures
        days_before_year(era * 400 + yoe) == era * 146097 + days_before_year(yoe),
{
    let y = era * 400 + yoe;
    assert((y + 3) / 4 == era * 100 + (yoe + 3) / 4);
    assert((y + 99) / 100 == era * 4 + (yoe + 99) / 100);
    assert((y + 399) / 400 == era + (yoe + 399) / 400);
}

pub proof fn lemma_leap_shift(era: int, yoe: int)
    ensures
        is_leap_year(era * 400 + yoe) == is_leap_year(yoe),
{
    let y = era * 400 + yoe;
    assert(y % 4 == yoe % 4);
    assert(y % 100 == yoe % 100);
    assert(y % 400 == yoe % 400);
}

proof fn lemma_yoe_days(yoe: int)
    requires
        0 <= yoe <= 399,
    ensures
        days_before_year(yoe) == yoe * 365 + yoe / 4 - yoe / 100 + 1 - (if is_leap_year(yoe) { 1int } else { 0int }),
        days_before_year(yoe + 1) == yoe * 365 + yoe / 4 - yoe / 100 + 366,
{
    lemma_year_step(yoe);
}

proof fn lemma_days_before_mp(y: int, mp: int)
    requires
        0 <= mp <= 11,
    ensures
        mp < 10 ==> days_before_month(y, month_of_mp(mp)) == days_before_mp(mp) + 59 + (if is_leap_year(y) { 1int } else { 0int }),
        mp >= 10 ==> days_before_month(y, month_of_mp(mp)) == days_before_mp(mp) - 306,
{
}

/// The era decomposition names the same day as the calendar.
pub proof fn lemma_era_day(era: int, yoe: int, mp: int, d: int)
    requires
        0 <= yoe <= 399,
        0 <= mp <= 11,
    ensures
        era_day(era, yoe, days_before_mp(mp) + d - 1) == epoch_day(
            era * 400 + yoe + (if mp >= 10 { 1int } else { 0int }),
            month_of_mp(mp),
            d,
        ),
{
    let y = era * 400 + yoe;
    lemma_days_before_year_shift(era, yoe);
    lemma_leap_shift(era, yoe);
    lemma_yoe_days(yoe);
    lemma_year_step(y);
    if mp >= 10 {
        lemma_days_before_mp(y + 1, mp);
    } else {
        lemma_days_before_mp(y, mp);
    }
}


/// Whether the March-based year `yoe` of an era holds a February 29th.
pub open spec fn mp_year_has_leap_day(yoe: int) -> bool {
    ((yoe + 1) % 4 == 0 && (yoe + 1) % 100 != 0) || yoe == 399
}

/// The year-of-era estimate of the day conversion brackets the day of era.
pub proof fn lemma_year_of_era(doe: u32, yoe: u32)
    requires
        doe <= 146096,
        yoe == (doe - doe / 1460 + doe / 36524 - doe / 146096) / 365,
    ensures
        yoe <= 399,
        365 * yoe + yoe / 4 - yoe / 100 <= doe,
        doe - (365 * yoe + yoe / 4 - yoe / 100) <= 364 + (if mp_year_has_leap_day(yoe as int) { 1int } else { 0int }),
{
    assert(yoe <= 399 && 365 * yoe + yoe / 4 - yoe / 100 <= doe) by (bit_vector)
        requires
            doe <= 146096,
            yoe == (doe - doe / 1460 + doe / 36524 - doe / 146096) / 365,
    ;
    assert(doe <= 365 * yoe + yoe / 4 - yoe / 100 + 365) by (bit_vector)
        requires
            doe <= 146096,
            yoe == (doe - doe / 1460 + doe / 36524 - doe / 146096) / 365,
    ;
}

/// The month estimate of the day conversion brackets the day of the March-based year.
pub proof fn lemma_month_of_year(doy: int, leap: bool)
    requires
        0 <= doy <= 364 + (if leap { 1int } else { 0int }),
    ensures
        0 <= (5 * doy + 2) / 153 <= 11,
        days_before_mp((5 * doy + 2) / 153) <= doy,
        doy - days_before_mp((5 * doy + 2) / 153) < (if (5 * doy + 2) / 153 == 11 {
            28 + (if leap { 1int } else { 0int })
        } else if (5 * doy + 2) / 153 == 1 || (5 * doy + 2) / 153 == 3 || (5 * doy + 2) / 153 == 6
            || (5 * doy + 2) / 153 == 8 {
            30int
        } else {
            31int
        }),
{
}


/// Every day number is the day number of a real date: the date the era
/// decomposition finds.
pub proof fn lemma_day_has_date(z: int) -> (r: (int, int, int))
    ensures
        is_valid_ymd(r.0, r.1, r.2),
        epoch_day(r.0, r.1, r.2) == z,
{
    let zz = z + 719468;
    let era = zz / 146097;
    let doe = zz - era * 146097;
    assert(0 <= doe <= 146096);
    let yoe = (doe - doe / 1460 + doe / 36524 - doe / 146096) / 365;
    lemma_year_of_era(doe as u32, yoe as u32);
    let y = yoe + era * 400;
    let doy = doe - (365 * yoe + yoe / 4 - yoe / 100);
    lemma_month_of_year(doy, mp_year_has_leap_day(yoe));
    let mp = (5 * doy + 2) / 153;
    let d = doy - (153 * mp + 2) / 5 + 1;
    let m = if mp < 10 {
        mp + 3
    } else {
        mp - 9
    };
    let year = if m <= 2 {
        y + 1
    } else {
        y
    };
    lemma_era_day(era, yoe, mp, d);
    lemma_leap_shift(era, yoe + 1);
    assert(month_of_mp(mp) == m);
    (year, m, d)
}

/// The four zero-padded digits of `v` in 0..=9999: `render_padded(v, 4)` is
/// a digit string of length 4 whose value is `v`.
pub proof fn lemma_render_four_digits(v: int)
    requires
        0 <= v <= 9999,
    ensures
        render_padded(v, 4).len() == 4,
        all_digits(render_padded(v, 4)),
        digits_value(render_padded(v, 4)) == v,
{
    let s = seq![digit_char(v / 1000), digit_char((v / 100) % 10), digit_char((v / 10) % 10), digit_char(v % 10)];
    lemma_digit_roundtrip_of(v / 1000);
    lemma_digit_roundtrip_of((v / 100) % 10);
    lemma_digit_roundtrip_of((v / 10) % 10);
    lemma_digit_roundtrip_of(v % 10);
    let s1 = s.drop_last().drop_last().drop_last();
    let s2 = s.drop_last().drop_last();
    let s3 = s.drop_last();
    assert(s1.drop_last() =~= Seq::<char>::empty());
    assert(s1 =~= seq![s[0]]);
    assert(s2 =~= seq![s[0], s[1]]);
    assert(s3 =~= seq![s[0], s[1], s[2]]);
    assert(digits_value(s1.drop_last()) == 0);
    assert(s1.last() == s[0]);
    assert(digits_value(s1) == v / 1000);
    assert(digits_value(s2) == (v / 1000) * 10 + (v / 100) % 10);
    assert(digits_value(s2) == v / 100);
    assert(digits_value(s3) == v / 10);
    assert(digits_value(s) == v);
    assert(is_digit(s[0]) && is_digit(s[1]) && is_digit(s[2]) && is_digit(s[3]));
    lemma_render_four(s);
}

/// The two zero-padded digits of `v` in 0..=99.
pub proof fn lemma_render_two_digits(v: int)
    requires
        0 <= v <= 99,
    ensures
        render_padded(v, 2).len() == 2,
        all_digits(render_padded(v, 2)),
        digits_value(render_padded(v, 2)) == v,
{
    let s = seq![digit_char(v / 10), digit_char(v % 10)];
    lemma_digit_roundtrip_of(v / 10);
    lemma_digit_roundtrip_of(v % 10);
    assert(s.drop_last().drop_last() =~= Seq::<char>::empty());
    assert(s.drop_last() =~= seq![s[0]]);
    assert(digits_value(s.drop_last().drop_last()) == 0);
    assert(s.drop_last().last() == s[0]);
    assert(digits_value(s.drop_last()) == v / 10);
    assert(digits_value(s) == v);
    assert(is_digit(s[0]) && is_digit(s[1]));
    lemma_render_two(s);
}

proof fn lemma_digit_roundtrip_of(k: int)
    requires
        0 <= k <= 9,
    ensures
        is_digit(digit_char(k)),
        digit_value(digit_char(k)) == k,
{
}

/// The text of a real date with a year in 0..=9999 is a valid `YYYY-MM-DD`
/// string whose fields are that date.
pub proof fn lemma_render_ymd_valid(y: int, m: int, d: int)
    requires
        0 <= y <= 9999,
        is_valid_ymd(y, m, d),
    ensures
        is_valid_date_text(render_ymd(y, m, d)),
        year_field(render_ymd(y, m, d)) == y,
        month_field(render_ymd(y, m, d)) == m,
        day_field(render_ymd(y, m, d)) == d,
{
    lemma_render_four_digits(y);
    lemma_render_two_digits(m);
    lemma_render_two_digits(d);
    let ys = render_padded(y, 4);
    let ms = render_padded(m, 2);
    let ds = render_padded(d, 2);
    let s = render_ymd(y, m, d);
    assert(s.len() == 10);
    assert(s.subrange(0, 4) =~= ys);
    assert(s.subrange(5, 7) =~= ms);
    assert(s.subrange(8, 10) =~= ds);
    assert(s[4] == '-' && s[7] == '-');
}

/// The calendar date of day number `z` (days since 1970-01-01).
pub open spec fn date_of_day(z: int) -> (int, int, int) {
    choose|t: (int, int, int)| is_valid_ymd(t.0, t.1, t.2) && epoch_day(t.0, t.1, t.2) == z
}

/// `YYYY-MM-DD` text of day number `z`.
pub open spec fn day_text(z: int) -> Seq<char> {
    let t = date_of_day(z);
    render_ymd(t.0, t.1, t.2)
}

/// A real date is the date of its own day number.
pub proof fn lemma_date_of_day(y: int, m: int, d: int)
    requires
        is_valid_ymd(y, m, d),
    ensures
        date_of_day(epoch_day(y, m, d)) == (y, m, d),
{
    let z = epoch_day(y, m, d);
    assert(is_valid_ymd((y, m, d).0, (y, m, d).1, (y, m, d).2) && epoch_day(
        (y, m, d).0,
        (y, m, d).1,
        (y, m, d).2,
    ) == z);
    let t = date_of_day(z);
    lemma_epoch_day_injective(t.0, t.1, t.2, y, m, d);
}

/// `digits_value` of a prefix extended by one digit.
pub proof fn lemma_digits_value_push(s: Seq<char>, lo: int, hi: int)
    requires
        0 <= lo <= hi < s.len(),
    ensures
        digits_value(s.subrange(lo, hi + 1)) == digits_value(s.subrange(lo, hi)) * 10
            + digit_value(s[hi]),
{
    assert(s.subrange(lo, hi + 1).drop_last() =~= s.subrange(lo, hi));
}


/// Value of the decimal digits `cs[lo..hi]`.
pub fn field_value(cs: &Vec<char>, lo: usize, hi: usize) -> (r: i64)
    requires
        lo <= hi <= cs.len(),
        hi - lo <= 4,
        all_digits(cs@.subrange(lo as int, hi as int)),
    ensures
        r == digits_value(cs@.subrange(lo as int, hi as int)),
        0 <= r < 10000,
{
    let mut v: i64 = 0;
    let mut i: usize = lo;
    assert(cs@.subrange(lo as int, lo as int) =~= Seq::<char>::empty());
    while i < hi
        invariant
            lo <= i <= hi <= cs.len(),
            hi - lo <= 4,
            all_digits(cs@.subrange(lo as int, hi as int)),
            v == digits_value(cs@.subrange(lo as int, i as int)),
            0 <= v,
            i - lo == 0 ==> v < 1,
            i - lo == 1 ==> v < 10,
            i - lo == 2 ==> v < 100,
            i - lo == 3 ==> v < 1000,
            i - lo == 4 ==> v < 10000,
        decreases hi - i,
    {
        assert(cs@.subrange(lo as int, hi as int)[i - lo] == cs@[i as int]);
        proof {
            lemma_digits_value_push(cs@, lo as int, i as int);
        }
        let c = cs[i];
        v = v * 10 + ((c as u32) - 48) as i64;
        i = i + 1;
    }
    v
}


/// The ASCII digit for `k` (0..=9).
pub fn digit(k: u64) -> (c: char)
    requires
        k <= 9,
    ensures
        c == digit_char(k as int),
{
    ((k as u8) + 48) as char
}

/// Decimal digits of `n`.
pub fn decimal_chars(n: u64) -> (r: Vec<char>)
    ensures
        r@ == dec_digits(n as nat),
    decreases n,
{
    if n < 10 {
        let mut r: Vec<char> = Vec::new();
        r.push(digit(n));
        r
    } else {
        let mut r = decimal_chars(n / 10);
        r.push(digit(n % 10));
        r
    }
}

/// `v` in decimal, zero-padded to `width` characters (sign included).
pub fn padded_chars(v: i64, width: u64) -> (r: Vec<char>)
    requires
        1 <= width <= 8,
    ensures
        r@ == render_padded(v as int, width as nat),
{
    let neg = v < 0;
    let mag: u64 = if neg {
        ((-(v + 1)) as u64) + 1
    } else {
        v as u64
    };
    let digits = decimal_chars(mag);
    let target: u64 = if neg {
        width - 1
    } else {
        width
    };
    let mut r: Vec<char> = Vec::new();
    if neg {
        r.push('-');
    }
    let ghost start = r@;
    let mut k: u64 = digits.len() as u64;
    while k < target
        invariant
            k <= target || k == digits.len(),
            digits.len() <= k,
            start.len() <= r@.len(),
            start.len() <= 1,
            r@.len() == start.len() + (k - digits.len()),
            forall|i: int| start.len() <= i < r@.len() ==> r@[i] == '0',
            r@.subrange(0, start.len() as int) == start,
        decreases target - k,
    {
        let ghost prev = r@;
        r.push('0');
        assert(r@.subrange(0, start.len() as int) =~= prev.subrange(0, start.len() as int));
        k = k + 1;
    }
    let mut i: usize = 0;
    let ghost padded_len = r@.len();
    assert(padded_len == start.len() + (if target > digits.len() { target - digits.len() } else { 0 }));
    while i < digits.len()
        invariant
            i <= digits.len(),
            start.len() <= padded_len,
            start.len() <= 1,
            padded_len == start.len() + (if target > digits.len() { target - digits.len() } else { 0 }),
            r@.len() == padded_len + i,
            forall|j: int| start.len() <= j < padded_len ==> r@[j] == '0',
            r@.subrange(0, start.len() as int) == start,
            forall|j: int| 0 <= j < i ==> r@[padded_len + j] == digits@[j],
        decreases digits.len() - i,
    {
        let ghost prev = r@;
        r.push(digits[i]);
        assert(r@.subrange(0, start.len() as int) =~= prev.subrange(0, start.len() as int));
        i = i + 1;
    }
    proof {
        let w: nat = if neg { (width - 1) as nat } else { width as nat };
        let z = zero_pad(dec_digits(mag as nat), w);
        assert(r@.subrange(start.len() as int, r@.len() as int) =~= z);
        assert(r@ =~= start + z);
        if neg {
            assert(start =~= seq!['-']);
            assert((-(v as int)) as nat == mag as nat);
        } else {
            assert(start =~= Seq::<char>::empty());
        }
    }
    r
}

/// `n` in decimal.
pub fn decimal_string(n: u64) -> (res: String)
    ensures
        res@ == dec_digits(n as nat),
{
    let cs = decimal_chars(n);
    string_from_chars(&cs)
}

} // verus!
