//! Note files: where each kind of note lives and the template a fresh one
//! starts from.
//!
//! Daily notes are filed by calendar date; what date "today" is comes from
//! the clock, and the date-dependent file name and title are rendered by
//! the time library.

use vstd::prelude::*;
use vstd::string::StringExecFns;

use crate::text::{chars_to_string, lower_of, lowercase, str_to_chars};
use crate::utils::{spec_title_case, to_title_case};

verus! {

/// Which day a daily note belongs to.
#[derive(Clone, Copy, Debug, PartialEq, Eq, Structural)]
pub enum DailyNoteSpecifier {
    Yesterday,
    Today,
    Tomorrow,
}

/// A note to open: the daily journal, a topic note, or a person note.
#[derive(Debug)]
pub enum NoteSpecifier {
    Daily { day: DailyNoteSpecifier },
    Topic { name: String },
    Person { who: String },
}

/// Leap years of the proleptic Gregorian calendar.
pub open spec fn is_leap_year(y: int) -> bool {
    (y % 4 == 0 && y % 100 != 0) || y % 400 == 0
}

/// Days in a month of the proleptic Gregorian calendar.
pub open spec fn days_in_month(y: int, m: int) -> int {
    if m == 2 {
        if is_leap_year(y) {
            29
        } else {
            28
        }
    } else if m == 4 || m == 6 || m == 9 || m == 11 {
        30
    } else {
        31
    }
}

/// A real calendar date within the time library's supported years.
pub open spec fn valid_date(y: int, m: int, d: int) -> bool {
    -9999 <= y <= 9999 && 1 <= m <= 12 && 1 <= d <= days_in_month(y, m)
}

/// Relies on SystemTime::now and OffsetDateTime::from of the time crate:
/// the calendar date the clock reports, a valid date. The result depends on
/// the clock.
#[verifier::external_body]
fn current_date() -> (r: (i32, u8, u8))
    ensures
        valid_date(r.0 as int, r.1 as int, r.2 as int),
{
    let cur_time: time::OffsetDateTime = std::time::SystemTime::now().into();
    let cur_date: time::Date = cur_time.date();
    (cur_date.year(), u8::from(cur_date.month()), cur_date.day())
}

/// The calendar day after a date (the date itself at the very end of the
/// supported years).
pub open spec fn spec_next_date(y: int, m: int, d: int) -> (int, int, int) {
    if d < days_in_month(y, m) {
        (y, m, d + 1)
    } else if m < 12 {
        (y, m + 1, 1)
    } else if y < 9999 {
        (y + 1, 1, 1)
    } else {
        (y, m, d)
    }
}

/// The calendar day before a date (the date itself at the very start of
/// the supported years).
pub open spec fn spec_previous_date(y: int, m: int, d: int) -> (int, int, int) {
    if d > 1 {
        (y, m, d - 1)
    } else if m > 1 {
        (y, m - 1, days_in_month(y, m - 1))
    } else if y > -9999 {
        (y - 1, 12, 31)
    } else {
        (y, m, d)
    }
}

/// The date a daily-note specifier selects, relative to today.
pub open spec fn date_for_specifier(day: DailyNoteSpecifier, y: int, m: int, d: int) -> (
    int,
    int,
    int,
) {
    match day {
        DailyNoteSpecifier::Yesterday => spec_previous_date(y, m, d),
        DailyNoteSpecifier::Today => (y, m, d),
        DailyNoteSpecifier::Tomorrow => spec_next_date(y, m, d),
    }
}

/// Whether the year is a leap year.
fn leap_year(y: i32) -> (r: bool)
    requires
        -9999 <= y <= 9999,
    ensures
        r == is_leap_year(y as int),
{
    // shift by ten thousand years (a multiple of 400) so the remainders
    // are taken of a non-negative number
    let shifted = (y + 10000) as u32;
    proof {
        vstd::arithmetic::div_mod::lemma_mod_multiples_vanish(2500, y as int, 4);
        vstd::arithmetic::div_mod::lemma_mod_multiples_vanish(100, y as int, 100);
        vstd::arithmetic::div_mod::lemma_mod_multiples_vanish(25, y as int, 400);
    }
    (shifted % 4 == 0 && shifted % 100 != 0) || shifted % 400 == 0
}

/// How many days the month has.
fn month_length(y: i32, m: u8) -> (r: u8)
    requires
        -9999 <= y <= 9999,
    ensures
        r == days_in_month(y as int, m as int),
{
    if m == 2 {
        if leap_year(y) {
            29
        } else {
            28
        }
    } else if m == 4 || m == 6 || m == 9 || m == 11 {
        30
    } else {
        31
    }
}

/// The calendar day after the given date.
fn next_date(y: i32, m: u8, d: u8) -> (r: (i32, u8, u8))
    requires
        valid_date(y as int, m as int, d as int),
    ensures
        (r.0 as int, r.1 as int, r.2 as int) == spec_next_date(y as int, m as int, d as int),
        valid_date(r.0 as int, r.1 as int, r.2 as int),
{
    if d < month_length(y, m) {
        (y, m, d + 1)
    } else if m < 12 {
        (y, m + 1, 1)
    } else if y < 9999 {
        (y + 1, 1, 1)
    } else {
        (y, m, d)
    }
}

/// The calendar day before the given date.
fn previous_date(y: i32, m: u8, d: u8) -> (r: (i32, u8, u8))
    requires
        valid_date(y as int, m as int, d as int),
    ensures
        (r.0 as int, r.1 as int, r.2 as int) == spec_previous_date(y as int, m as int, d as int),
        valid_date(r.0 as int, r.1 as int, r.2 as int),
{
    if d > 1 {
        (y, m, d - 1)
    } else if m > 1 {
        (y, m - 1, month_length(y, m - 1))
    } else if y > -9999 {
        (y - 1, 12, 31)
    } else {
        (y, m, d)
    }
}

/// The date for a daily-note specifier, shifted from today's date.
fn date_for(day: &DailyNoteSpecifier, y: i32, m: u8, d: u8) -> (r: (i32, u8, u8))
    requires
        valid_date(y as int, m as int, d as int),
    ensures
        (r.0 as int, r.1 as int, r.2 as int) == date_for_specifier(
            *day,
            y as int,
            m as int,
            d as int,
        ),
        valid_date(r.0 as int, r.1 as int, r.2 as int),
{
    match day {
        DailyNoteSpecifier::Yesterday => previous_date(y, m, d),
        DailyNoteSpecifier::Today => (y, m, d),
        DailyNoteSpecifier::Tomorrow => next_date(y, m, d),
    }
}

/// The daily note's path for a date, as the time library formats it:
/// `daily/<year>/<week>/<weekday>_<month>_<day>.md`. Left abstract; a
/// function of the date alone.
pub uninterp spec fn daily_path_of(y: int, m: int, d: int) -> Seq<char>;

/// Relies on Date::from_calendar_date and Date::format of the time crate,
/// with the format description parsed at run time: the daily note's path
/// for the date, a function of the date alone.
#[verifier::external_body]
fn format_daily_path(y: i32, m: u8, d: u8) -> (r: String)
    requires
        valid_date(y as int, m as int, d as int),
    ensures
        r@ == daily_path_of(y as int, m as int, d as int),
{
    let month = time::Month::try_from(m).unwrap_or(time::Month::January);
    let date = time::Date::from_calendar_date(y, month, d).unwrap_or(time::Date::MIN);
    let format = time::format_description::parse(
        "daily/[year repr:full]/[week_number repr:sunday]/[weekday repr:short]_[month repr:short]_[day].md",
    ).unwrap();
    date.format(&format).unwrap_or_default()
}

/// The daily note's title line for a date, as the time library formats it:
/// `<weekday> <month> <day>`. Left abstract; a function of the date alone.
pub uninterp spec fn daily_title_of(y: int, m: int, d: int) -> Seq<char>;

/// Relies on Date::from_calendar_date and Date::format of the time crate,
/// with the format description parsed at run time: the daily note's title
/// for the date, a function of the date alone.
#[verifier::external_body]
fn format_daily_title(y: i32, m: u8, d: u8) -> (r: String)
    requires
        valid_date(y as int, m as int, d as int),
    ensures
        r@ == daily_title_of(y as int, m as int, d as int),
{
    let month = time::Month::try_from(m).unwrap_or(time::Month::January);
    let date = time::Date::from_calendar_date(y, month, d).unwrap_or(time::Date::MIN);
    let format = time::format_description::parse(
        "[weekday repr:long] [month repr:long] [day padding:none]",
    ).unwrap();
    date.format(&format).unwrap_or_default()
}

/// The ordinal suffix of a day of the month.
pub open spec fn spec_day_suffix(day: int) -> Seq<char> {
    if day == 1 || day == 21 || day == 31 {
        "st"@
    } else if day == 2 || day == 22 {
        "nd"@
    } else if day == 3 || day == 23 {
        "rd"@
    } else {
        "th"@
    }
}

/// The ordinal suffix (`st`, `nd`, `rd`, `th`) for a day of the month.
pub fn get_day_suffix<'a>(day: u8) -> (r: &'a str)
    ensures
        r@ == spec_day_suffix(day as int),
{
    match day {
        1 | 21 | 31 => "st",
        2 | 22 => "nd",
        3 | 23 => "rd",
        _ => "th",
    }
}

/// A name's character as it appears in a file name: spaces and hyphens
/// become underscores.
pub open spec fn path_char(c: char) -> char {
    if c == ' ' || c == '-' {
        '_'
    } else {
        c
    }
}

/// A name as it appears in a file name: lowercased, with spaces and
/// hyphens replaced by underscores.
pub open spec fn name_in_path(name: Seq<char>) -> Seq<char> {
    lower_of(name).map_values(|c: char| path_char(c))
}

fn file_name_for(name: &str) -> (r: Vec<char>)
    ensures
        r@ == name_in_path(name@),
{
    let lowered = lowercase(name);
    let cs = str_to_chars(lowered.as_str());
    let mut out: Vec<char> = Vec::new();
    let mut i: usize = 0;
    while i < cs.len()
        invariant
            0 <= i <= cs@.len(),
            cs@ == lower_of(name@),
            out@ =~= cs@.map_values(|c: char| path_char(c)).take(i as int),
        decreases cs@.len() - i,
    {
        let c = cs[i];
        if c == ' ' || c == '-' {
            out.push('_');
        } else {
            out.push(c);
        }
        i = i + 1;
    }
    proof {
        assert(out@ =~= name_in_path(name@));
    }
    out
}

/// The topic note's path: `topics/<name>.md` with the name lowercased and
/// separators folded to underscores.
pub fn get_path_for_topic(topic_name: &str) -> (r: String)
    ensures
        r@ == "topics/"@ + name_in_path(topic_name@) + ".md"@,
{
    let body = file_name_for(topic_name);
    let mut out = {
        let p = "topics/";
        p.to_owned()
    };
    out.append(chars_to_string(&body).as_str());
    out.append(".md");
    out
}

/// The person note's path: `people/<name>.md` with the name lowercased and
/// separators folded to underscores.
pub fn get_path_for_person(person_name: &str) -> (r: String)
    ensures
        r@ == "people/"@ + name_in_path(person_name@) + ".md"@,
{
    let body = file_name_for(person_name);
    let mut out = {
        let p = "people/";
        p.to_owned()
    };
    out.append(chars_to_string(&body).as_str());
    out.append(".md");
    out
}

/// The path of the note's file, relative to the notes directory. Daily
/// notes are filed under the date the clock reports.
pub fn format_note_path(note_specifier: &NoteSpecifier) -> (r: String)
    ensures
        note_specifier matches NoteSpecifier::Topic { name } ==> r@ == "topics/"@ + name_in_path(
            name@,
        ) + ".md"@,
        note_specifier matches NoteSpecifier::Person { who } ==> r@ == "people/"@ + name_in_path(
            who@,
        ) + ".md"@,
        note_specifier matches NoteSpecifier::Daily { day } ==> exists|y: int, m: int, d: int|
            #![trigger date_for_specifier(*day, y, m, d)]
            valid_date(y, m, d) && r@ == daily_path_of(
                date_for_specifier(*day, y, m, d).0,
                date_for_specifier(*day, y, m, d).1,
                date_for_specifier(*day, y, m, d).2,
            ),
{
    match note_specifier {
        NoteSpecifier::Topic { name } => get_path_for_topic(name.as_str()),
        NoteSpecifier::Daily { day } => {
            let (ty, tm, td) = current_date();
            let (y, m, d) = date_for(day, ty, tm, td);
            let r = format_daily_path(y, m, d);
            proof {
                let t = date_for_specifier(*day, ty as int, tm as int, td as int);
                assert(valid_date(ty as int, tm as int, td as int) && r@ == daily_path_of(
                    t.0,
                    t.1,
                    t.2,
                ));
            }
            r
        },
        NoteSpecifier::Person { who } => get_path_for_person(who.as_str()),
    }
}

/// The first content of a fresh note: a title heading for the note's
/// subject (for the daily note, the date with its ordinal suffix and an
/// empty first section).
pub fn note_template(note_specifier: &NoteSpecifier) -> (r: String)
    ensures
        note_specifier matches NoteSpecifier::Topic { name } ==> r@ == "# "@ + spec_title_case(
            name@,
        ),
        note_specifier matches NoteSpecifier::Person { who } ==> r@ == "# "@ + who@,
        note_specifier matches NoteSpecifier::Daily { day } ==> exists|y: int, m: int, d: int|
            #![trigger date_for_specifier(*day, y, m, d)]
            valid_date(y, m, d) && r@ == "# "@ + daily_title_of(
                date_for_specifier(*day, y, m, d).0,
                date_for_specifier(*day, y, m, d).1,
                date_for_specifier(*day, y, m, d).2,
            ) + spec_day_suffix(date_for_specifier(*day, y, m, d).2) + "\n\n## "@,
{
    match note_specifier {
        NoteSpecifier::Daily { day } => {
            let (ty, tm, td) = current_date();
            let (y, m, d) = date_for(day, ty, tm, td);
            let date_str = format_daily_title(y, m, d);
            let day_suffix = get_day_suffix(d);
            let mut out = {
                let h = "# ";
                h.to_owned()
            };
            out.append(date_str.as_str());
            out.append(day_suffix);
            out.append("\n\n## ");
            proof {
                let t = date_for_specifier(*day, ty as int, tm as int, td as int);
                assert(valid_date(ty as int, tm as int, td as int) && out@ == "# "@
                    + daily_title_of(t.0, t.1, t.2) + spec_day_suffix(t.2) + "\n\n## "@);
            }
            out
        },
        NoteSpecifier::Topic { name } => {
            let mut out = {
                let h = "# ";
                h.to_owned()
            };
            out.append(to_title_case(name.as_str()).as_str());
            out
        },
        NoteSpecifier::Person { who } => {
            let mut out = {
                let h = "# ";
                h.to_owned()
            };
            out.append(who.as_str());
            out
        },
    }
}

} // verus!
