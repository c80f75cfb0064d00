//! Where a bundle is made: `update_<year>/update_<year>.<month>.<day>`
//! under the update root, and inside it the first directory
//! `<n>. Разное` that does not exist yet, counting from 1.

use vstd::prelude::*;
use crate::text::{decimal, padded, push_char, push_decimal, push_chars, push_text};

verus! {

/// A calendar day of the local clock.
pub struct LocalDate {
    pub year: i32,
    pub month: u32,
    pub day: u32,
}

/// Leap years of the proleptic Gregorian calendar.
pub open spec fn is_leap_year(y: int) -> bool {
    y % 4 == 0 && (y % 100 != 0 || y % 400 == 0)
}

/// The number of days of a month.
pub open spec fn days_in_month(y: int, m: int) -> int {
    if m == 2 {
        if is_leap_year(y) { 29 } else { 28 }
    } else if m == 4 || m == 6 || m == 9 || m == 11 {
        30
    } else {
        31
    }
}

/// A calendar day that chrono can represent.
pub open spec fn is_valid_date(y: int, m: int, d: int) -> bool {
    &&& -262143 <= y <= 262142
    &&& 1 <= m <= 12
    &&& 1 <= d <= days_in_month(y, m)
}

/// The year as `%Y` writes it: zero-padded to four digits, with a sign
/// for years before 0 and after 9999.
pub open spec fn year_text(y: int) -> Seq<char> {
    if 0 <= y <= 9999 {
        padded(y as nat, 4)
    } else if y < 0 {
        seq!['-'] + padded((-y) as nat, 4)
    } else {
        seq!['+'] + padded(y as nat, 4)
    }
}

/// The day as `%Y.%m.%d` writes it.
pub open spec fn date_text(y: int, m: int, d: int) -> Seq<char> {
    year_text(y) + seq!['.'] + padded(m as nat, 2) + seq!['.'] + padded(d as nat, 2)
}

/// The pattern `%Y`.
pub open spec fn year_pattern() -> Seq<char> {
    seq!['%', 'Y']
}

/// The pattern `%Y.%m.%d`.
pub open spec fn date_pattern() -> Seq<char> {
    seq!['%', 'Y', '.', '%', 'm', '.', '%', 'd']
}

/// Formats a calendar day with one of the patterns `%Y` and `%Y.%m.%d`
/// through chrono: `chrono::NaiveDate::from_ymd_opt` makes the date of the
/// three numbers, `chrono::NaiveDate::format` formats it and `to_string`
/// writes it out. The contract claims what chrono documents: there is a
/// date exactly for the days of the calendar in chrono's range of years,
/// and `%Y`, `%m`, `%d` write its year, month and day zero-padded to four,
/// two and two digits, the year with a sign outside 0..=9999.
#[verifier::external_body]
fn format_date(year: i32, month: u32, day: u32, pattern: &str) -> (res: Option<String>)
    requires
        pattern@ == year_pattern() || pattern@ == date_pattern(),
    ensures
        res is Some <==> is_valid_date(year as int, month as int, day as int),
        res matches Some(s) ==> (pattern@ == year_pattern() ==> s@ == year_text(year as int)),
        res matches Some(s) ==> (pattern@ == date_pattern() ==> s@ == date_text(year as int, month as int, day as int)),
{
    let date = chrono::NaiveDate::from_ymd_opt(year, month, day)?;
    Some(date.format(pattern).to_string())
}

/// The prefix `update_` of both dated directories.
pub open spec fn update_prefix() -> Seq<char> {
    seq!['u', 'p', 'd', 'a', 't', 'e', '_']
}

/// The directory of a year's updates.
pub open spec fn year_dir_name(y: int) -> Seq<char> {
    update_prefix() + year_text(y)
}

/// The directory of a day's updates.
pub open spec fn day_dir_name(y: int, m: int, d: int) -> Seq<char> {
    update_prefix() + date_text(y, m, d)
}

/// The dated directories of a day
pub struct UpdateDirs {
    /// `update_<year>`
    pub year_dir: String,
    /// `update_<year>.<month>.<day>`, inside the year's directory
    pub day_dir: String,
}

fn update_prefix_string() -> (res: String)
    ensures
        res@ == update_prefix(),
{
    let mut s = String::new();
    push_char(&mut s, 'u');
    push_char(&mut s, 'p');
    push_char(&mut s, 'd');
    push_char(&mut s, 'a');
    push_char(&mut s, 't');
    push_char(&mut s, 'e');
    push_char(&mut s, '_');
    s
}

/// The names of the directories where the updates of `date` go; `None`
/// when `date` is no calendar day.
pub fn update_dir_names(date: &LocalDate) -> (res: Option<UpdateDirs>)
    ensures
        res is Some <==> is_valid_date(date.year as int, date.month as int, date.day as int),
        res matches Some(dirs) ==> dirs.year_dir@ == year_dir_name(date.year as int),
        res matches Some(dirs) ==> dirs.day_dir@ == day_dir_name(date.year as int, date.month as int, date.day as int),
{
    proof {
        reveal_strlit("%Y");
        reveal_strlit("%Y.%m.%d");
    }
    assert("%Y"@ =~= year_pattern());
    assert("%Y.%m.%d"@ =~= date_pattern());
    let y = match format_date(date.year, date.month, date.day, "%Y") {
        Some(y) => y,
        None => return None,
    };
    let d = match format_date(date.year, date.month, date.day, "%Y.%m.%d") {
        Some(d) => d,
        None => return None,
    };
    let mut year_dir = update_prefix_string();
    push_text(&mut year_dir, y.as_str());
    let mut day_dir = update_prefix_string();
    push_text(&mut day_dir, d.as_str());
    Some(UpdateDirs { year_dir, day_dir })
}

/// What follows the number in a bundle's directory name: `. Разное`.
pub open spec fn bundle_suffix() -> Seq<char> {
    seq!['.', ' ', '\u{420}', '\u{430}', '\u{437}', '\u{43d}', '\u{43e}', '\u{435}']
}

/// The directory name of the bundle numbered `index`.
pub open spec fn bundle_name(index: nat) -> Seq<char> {
    decimal(index) + bundle_suffix()
}

/// The directory name of the bundle numbered `index`: `<index>. Разное`.
pub fn bundle_dir_name(index: u32) -> (res: String)
    ensures
        res@ == bundle_name(index as nat),
{
    let mut v: Vec<char> = Vec::new();
    push_decimal(&mut v, index as u64);
    v.push('.');
    v.push(' ');
    v.push('\u{420}');
    v.push('\u{430}');
    v.push('\u{437}');
    v.push('\u{43d}');
    v.push('\u{43e}');
    v.push('\u{435}');
    assert(v@ =~= bundle_name(index as nat));
    let mut s = String::new();
    push_chars(&mut s, &v, 0, v.len());
    assert(v@.subrange(0, v@.len() as int) == v@);
    s
}

/// The step of the search for a free bundle directory, given whether the
/// directory of the current candidate exists.
pub enum BundleProbe {
    /// The candidate is taken: look at the directory of this number next.
    TryNext(u32),
    /// The candidate is free: the bundle gets this number.
    Take(u32),
}

/// The step of the search for a free bundle number from `index`, given
/// whether the directory of `index` exists.
pub open spec fn bundle_step(index: u32, exists: bool) -> BundleProbe {
    if exists {
        BundleProbe::TryNext((index + 1) as u32)
    } else {
        BundleProbe::Take(index)
    }
}

/// The number that at most `steps` steps of the search from `index` end
/// with, when `taken` tells which numbers have a directory; `None` when
/// the search needs more steps.
pub open spec fn bundle_search(taken: spec_fn(u32) -> bool, index: u32, steps: nat) -> Option<u32>
    decreases steps,
{
    if steps == 0 {
        None
    } else {
        match bundle_step(index, taken(index)) {
            BundleProbe::TryNext(next) => bundle_search(taken, next, (steps - 1) as nat),
            BundleProbe::Take(found) => Some(found),
        }
    }
}

/// One step of the search for the first free bundle number: a taken
/// candidate sends the search to the next number, a free one ends it.
/// Numbers stay within `i32`.
pub fn bundle_probe(index: u32, exists: bool) -> (res: BundleProbe)
    requires
        index <= 0x7fff_ffff,
        exists ==> index < 0x7fff_ffff,
    ensures
        res == bundle_step(index, exists),
        exists ==> res == BundleProbe::TryNext((index + 1) as u32),
        !exists ==> res == BundleProbe::Take(index),
{
    if exists {
        BundleProbe::TryNext(index + 1)
    } else {
        BundleProbe::Take(index)
    }
}

} // verus!
