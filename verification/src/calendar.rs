//! The months around a moment, as directory names.

use chrono::{Datelike, TimeZone};
use vstd::prelude::*;

use crate::text::{
    all_digits, decimal, digits_value, law_zero_padded_is_read_back, texts_view, zero_padded,
    zero_padded_text,
};

verus! {

// ---------------------------------------------------------------------------
// The calendar
// ---------------------------------------------------------------------------

/// Has the year a 29th of February?
pub open spec fn is_leap(year: int) -> bool {
    year % 4 == 0 && (year % 100 != 0 || year % 400 == 0)
}

/// The number of days in a month.
pub open spec fn month_len(year: int, month: int) -> int {
    if month == 2 {
        if is_leap(year) {
            29
        } else {
            28
        }
    } else if month == 4 || month == 6 || month == 9 || month == 11 {
        30
    } else {
        31
    }
}

/// The number of days from 1970-01-01 to the first day of a year.
pub open spec fn year_start(year: int) -> int {
    365 * (year - 1970) + (year - 1) / 4 - (year - 1) / 100 + (year - 1) / 400 - 477
}

/// The number of days from 1970-01-01 to the first day of a month.
pub open spec fn month_start(year: int, month: int) -> int
    decreases month,
{
    if month <= 1 {
        year_start(year)
    } else {
        month_start(year, month - 1) + month_len(year, month - 1)
    }
}

/// The day `day`, counted from 1970-01-01, lies in a month.
pub open spec fn month_holds(year: int, month: int, day: int) -> bool {
    &&& 1 <= month <= 12
    &&& month_start(year, month) <= day < month_start(year, month) + month_len(year, month)
}

/// The month behind a month.
pub open spec fn next_month(year: int, month: int) -> (int, int) {
    if month == 12 {
        (year + 1, 1)
    } else {
        (year, month + 1)
    }
}

/// The month before a month.
pub open spec fn previous_month(year: int, month: int) -> (int, int) {
    if month == 1 {
        (year - 1, 12)
    } else {
        (year, month - 1)
    }
}

proof fn lemma_year_step(year: int)
    ensures
        year_start(year + 1) == year_start(year) + 365 + if is_leap(year) {
            1int
        } else {
            0
        },
{
    let y = year - 1;
    assert((y + 1) / 4 == y / 4 + if (y + 1) % 4 == 0 {
        1int
    } else {
        0
    });
    assert((y + 1) / 100 == y / 100 + if (y + 1) % 100 == 0 {
        1int
    } else {
        0
    });
    assert((y + 1) / 400 == y / 400 + if (y + 1) % 400 == 0 {
        1int
    } else {
        0
    });
}

/// The months follow one another without a gap.
pub proof fn law_months_are_adjacent(year: int, month: int)
    requires
        1 <= month <= 12,
    ensures
        month_start(next_month(year, month).0, next_month(year, month).1) == month_start(
            year,
            month,
        ) + month_len(year, month),
{
    if month == 12 {
        reveal_with_fuel(month_start, 13);
        lemma_year_step(year);
    }
}

proof fn lemma_years_rise(a: int, b: int)
    requires
        a < b,
    ensures
        year_start(a) + 365 <= year_start(b),
    decreases b - a,
{
    lemma_year_step(a);
    if a + 1 < b {
        lemma_years_rise(a + 1, b);
    }
}

proof fn lemma_within_year(year: int, month: int)
    requires
        1 <= month <= 12,
    ensures
        year_start(year) <= month_start(year, month),
        month_start(year, month) + month_len(year, month) <= year_start(year + 1),
{
    reveal_with_fuel(month_start, 13);
    lemma_year_step(year);
}

proof fn lemma_months_rise(year: int, a: int, b: int)
    requires
        1 <= a < b <= 12,
    ensures
        month_start(year, a) + month_len(year, a) <= month_start(year, b),
    decreases b - a,
{
    if a + 1 < b {
        lemma_months_rise(year, a, b - 1);
    }
}

/// A day lies in one month only.
pub proof fn law_month_is_unique(y1: int, m1: int, y2: int, m2: int, day: int)
    requires
        month_holds(y1, m1, day),
        month_holds(y2, m2, day),
    ensures
        y1 == y2,
        m1 == m2,
{
    lemma_within_year(y1, m1);
    lemma_within_year(y2, m2);
    if y1 < y2 {
        if y1 + 1 < y2 {
            lemma_years_rise(y1 + 1, y2);
        }
    } else if y2 < y1 {
        if y2 + 1 < y1 {
            lemma_years_rise(y2 + 1, y1);
        }
    } else if m1 < m2 {
        lemma_months_rise(y1, m1, m2);
    } else if m2 < m1 {
        lemma_months_rise(y1, m2, m1);
    }
}

/// Going to the month before and back again leads to the same month, and so does
/// the other way round. The month before ends where the month begins, and the
/// month behind begins where it ends.
pub proof fn law_months_beside(year: int, month: int)
    requires
        1 <= month <= 12,
    ensures
        ({
            let before = previous_month(year, month);
            let behind = next_month(year, month);
            &&& next_month(before.0, before.1) == (year, month)
            &&& previous_month(behind.0, behind.1) == (year, month)
            &&& month_start(before.0, before.1) + month_len(before.0, before.1) == month_start(
                year,
                month,
            )
            &&& month_start(year, month) + month_len(year, month) == month_start(
                behind.0,
                behind.1,
            )
        }),
{
    let before = previous_month(year, month);
    law_months_are_adjacent(before.0, before.1);
    law_months_are_adjacent(year, month);
}

// ---------------------------------------------------------------------------
// The local time of this machine
// ---------------------------------------------------------------------------

/// The moments, in seconds from 1970-01-01 00:00 UTC, that have a date.
pub open spec fn has_date(unix_ts: int) -> bool {
    -8_334_601_228_800 <= unix_ts <= 8_210_266_876_799
}

/// In some time zone, less than a day off UTC, the moment lies in a month.
pub open spec fn local_month(unix_ts: int, year: int, month: int) -> bool {
    exists|offset: int|
        -86_400 < offset < 86_400 && #[trigger] month_holds(
            year,
            month,
            (unix_ts + offset) / 86_400,
        )
}

/// Reads the year and month of a moment in this machine's time zone.
///
/// It calls `chrono::Local.timestamp_opt`, `DateTime::year` and
/// `DateTime::month`. chrono has a date for the moments of `has_date` and for no
/// other, and knows time zones less than a day off UTC. Which zone this machine
/// keeps, and so which month it is, is not said.
#[verifier::external_body]
fn local_year_month(unix_ts: i64) -> (month: Option<(i32, u32)>)
    ensures
        month is Some <==> has_date(unix_ts as int),
        month matches Some(ym) ==> local_month(unix_ts as int, ym.0 as int, ym.1 as int),
{
    let moment = chrono::Local.timestamp_opt(unix_ts, 0).single()?;
    Some((moment.year(), moment.month()))
}

// ---------------------------------------------------------------------------
// Directory names
// ---------------------------------------------------------------------------

/// The name of a month's directory, as in `2025-08`.
pub open spec fn month_name(year: int, month: int) -> Seq<char> {
    zero_padded(year, 4) + "-"@ + zero_padded(month, 2)
}

/// The names of the directories of the month before a month, of the month itself
/// and of the month behind it.
pub open spec fn month_names_around(year: int, month: int) -> Seq<Seq<char>> {
    let before = previous_month(year, month);
    let behind = next_month(year, month);
    seq![
        month_name(before.0, before.1),
        month_name(year, month),
        month_name(behind.0, behind.1),
    ]
}

/// Names a month's directory.
fn month_text(year: i64, month: i64) -> (name: String)
    ensures
        name@ == month_name(year as int, month as int),
{
    let mut name = zero_padded_text(year, 4);
    name.append("-");
    name.append(zero_padded_text(month, 2).as_str());
    name
}

/// Names the directories of the month before a month, of the month itself and of
/// the month behind it.
pub fn months_around(year: i32, month: u32) -> (names: Vec<String>)
    requires
        1 <= month <= 12,
    ensures
        texts_view(names@) == month_names_around(year as int, month as int),
{
    let y: i64 = year as i64;
    let m: i64 = month as i64;
    let before = if m == 1 {
        month_text(y - 1, 12)
    } else {
        month_text(y, m - 1)
    };
    let behind = if m == 12 {
        month_text(y + 1, 1)
    } else {
        month_text(y, m + 1)
    };
    let names = vec![before, month_text(y, m), behind];
    assert(texts_view(names@) =~= month_names_around(year as int, month as int));
    names
}

/// Names the directories of the month before a moment's local month, of that month
/// and of the month behind it. A moment without a date has none.
pub fn three_month_candidates(unix_ts: i64) -> (names: Vec<String>)
    ensures
        !has_date(unix_ts as int) ==> names@.len() == 0,
        has_date(unix_ts as int) ==> exists|year: int, month: int| #[trigger]
            local_month(unix_ts as int, year, month) && texts_view(names@) == month_names_around(
                year,
                month,
            ),
{
    match local_year_month(unix_ts) {
        Some((year, month)) => months_around(year, month),
        None => Vec::new(),
    }
}

/// The months around a moment with its own month first.
pub open spec fn own_month_first(names: Seq<Seq<char>>) -> Seq<Seq<char>> {
    if names.len() == 3 {
        seq![names[1], names[0], names[2]]
    } else {
        names
    }
}

/// Puts the month in the middle first.
pub fn search_order(names: Vec<String>) -> (ordered: Vec<String>)
    ensures
        texts_view(ordered@) == own_month_first(texts_view(names@)),
{
    let mut ordered = names;
    if ordered.len() == 3 {
        let own = ordered.remove(1);
        ordered.insert(0, own);
    }
    assert(texts_view(ordered@) =~= own_month_first(texts_view(names@)));
    ordered
}

// ---------------------------------------------------------------------------
// What holds of months and their names
// ---------------------------------------------------------------------------

/// The calendar comes round every 400 years, with 146097 days, and its days are
/// counted from the first one of 1970.
pub proof fn law_calendar_comes_round(year: int)
    ensures
        year_start(year + 400) == year_start(year) + 146_097,
        year_start(1970) == 0,
        year_start(year + 1) == year_start(year) + if is_leap(year) {
            366int
        } else {
            365
        },
{
    lemma_year_step(year);
    let y = year - 1;
    assert((y + 400) / 4 == y / 4 + 100);
    assert((y + 400) / 100 == y / 100 + 4);
    assert((y + 400) / 400 == y / 400 + 1);
}

/// The twelve months fill the year.
pub proof fn law_months_fill_the_year(year: int)
    ensures
        month_start(year, 1) == year_start(year),
        month_start(year, 12) + month_len(year, 12) == year_start(year + 1),
{
    law_months_are_adjacent(year, 12);
}

/// A month is read back from its name: four digits of the year, and two of the
/// month behind a minus sign. So different months have different names.
pub proof fn law_month_name_is_read_back(year: int, month: int)
    requires
        0 <= year <= 9999,
        1 <= month <= 12,
    ensures
        month_name(year, month).len() == 7,
        month_name(year, month)[4] == '-',
        all_digits(month_name(year, month).take(4)),
        digits_value(month_name(year, month).take(4)) == year,
        all_digits(month_name(year, month).skip(5)),
        digits_value(month_name(year, month).skip(5)) == month,
{
    reveal_strlit("-");
    law_zero_padded_is_read_back(year, 4);
    law_zero_padded_is_read_back(month, 2);
    reveal_with_fuel(decimal, 5);
    let name = month_name(year, month);
    assert(decimal(year as nat).len() <= 4);
    assert(decimal(month as nat).len() <= 2);
    assert(name.take(4) =~= zero_padded(year, 4));
    assert(name.skip(5) =~= zero_padded(month, 2));
}

/// A year of more digits, or before the year 0, is read back too: what stands
/// before the last three characters is the year, with its sign.
pub proof fn law_any_year_is_read_back(year: int, month: int)
    requires
        1 <= month <= 12,
    ensures
        ({
            let name = month_name(year, month);
            let front = name.take(name.len() - 3);
            &&& name.len() >= 7
            &&& name[name.len() - 3] == '-'
            &&& digits_value(name.skip(name.len() - 2)) == month
            &&& year >= 0 ==> all_digits(front) && digits_value(front) == year
            &&& year < 0 ==> front[0] == '-' && all_digits(front.skip(1)) && digits_value(
                front.skip(1),
            ) == -year
        }),
{
    reveal_strlit("-");
    law_zero_padded_is_read_back(year, 4);
    law_zero_padded_is_read_back(month, 2);
    reveal_with_fuel(decimal, 3);
    assert(decimal(month as nat).len() <= 2);
    let name = month_name(year, month);
    assert(name.take(name.len() - 3) =~= zero_padded(year, 4));
    assert(name.skip(name.len() - 2) =~= zero_padded(month, 2));
}

/// The names around a month are those of the month that ends where it begins, of
/// the month itself, and of the month that begins where it ends.
pub proof fn law_month_names_around(year: int, month: int)
    requires
        1 <= month <= 12,
    ensures
        month_names_around(year, month).len() == 3,
        month_names_around(year, month)[1] == month_name(year, month),
        exists|y: int, m: int|
            1 <= m <= 12 && #[trigger] month_start(y, m) + month_len(y, m) == month_start(
                year,
                month,
            ) && month_names_around(year, month)[0] == month_name(y, m),
        exists|y: int, m: int|
            1 <= m <= 12 && #[trigger] month_start(y, m) == month_start(year, month) + month_len(
                year,
                month,
            ) && month_names_around(year, month)[2] == month_name(y, m),
{
    law_months_beside(year, month);
    let before = previous_month(year, month);
    let behind = next_month(year, month);
    assert(month_start(before.0, before.1) + month_len(before.0, before.1) == month_start(
        year,
        month,
    ));
    assert(month_start(behind.0, behind.1) == month_start(year, month) + month_len(year, month));
}

/// Putting the own month first loses and adds none, and keeps the order of the
/// others.
pub proof fn law_own_month_first(before: Seq<char>, own: Seq<char>, behind: Seq<char>)
    ensures
        own_month_first(seq![before, own, behind]) == seq![own, before, behind],
{
}

} // verus!
