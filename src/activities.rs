//! Activity records and their totals.
use vstd::prelude::*;

use crate::pace::{duration_text, format_pace, format_time, pace_seconds, rounded_quotient};
use crate::splits::{lap_distance, lap_size_distance, Lap};
use crate::text::{decimal, push_decimal, push_two_digits, string_views, two_digits};

verus! {

/// One recorded activity. `distance` is in centimetres and `moving_time` in
/// seconds; `laps` holds its splits once they are computed.
pub struct Activity {
    pub id: i64,
    pub name: String,
    pub distance: u32,
    pub moving_time: i32,
    pub manual: bool,
    pub start_date_local: String,
    pub laps: Option<Vec<Lap>>,
}

/// The sum of the activities' distances.
pub open spec fn distance_sum(a: Seq<Activity>) -> int
    decreases a.len(),
{
    if a.len() == 0 {
        0
    } else {
        distance_sum(a.drop_last()) + a.last().distance
    }
}

/// The sum of the activities' moving times.
pub open spec fn moving_time_sum(a: Seq<Activity>) -> int
    decreases a.len(),
{
    if a.len() == 0 {
        0
    } else {
        moving_time_sum(a.drop_last()) + a.last().moving_time
    }
}

/// The total distance and total moving time of a set of activities.
pub fn week_totals(activities: &Vec<Activity>) -> (r: (u128, i128))
    ensures
        r.0 == distance_sum(activities@),
        r.1 == moving_time_sum(activities@),
{
    let mut distance: u128 = 0;
    let mut moving_time: i128 = 0;
    let mut i: usize = 0;
    while i < activities.len()
        invariant
            i <= activities@.len(),
            distance == distance_sum(activities@.subrange(0, i as int)),
            moving_time == moving_time_sum(activities@.subrange(0, i as int)),
            distance <= i * 0x1_0000_0000,
            -i * 0x1_0000_0000 <= moving_time <= i * 0x1_0000_0000,
        decreases activities@.len() - i,
    {
        proof {
            assert(activities@.subrange(0, i + 1).drop_last() =~= activities@.subrange(0, i as int));
        }
        distance = distance + activities[i].distance as u128;
        moving_time = moving_time + activities[i].moving_time as i128;
        i = i + 1;
    }
    proof {
        assert(activities@.subrange(0, activities@.len() as int) =~= activities@);
    }
    (distance, moving_time)
}

/// The calendar date (year, month, day) of a `%Y-%m-%dT%H:%M:%SZ` timestamp;
/// `None` when the text is no such timestamp.
pub uninterp spec fn start_date_of(s: Seq<char>) -> Option<(i32, u32, u32)>;

/// Relies on chrono's `NaiveDateTime::parse_from_str` with the format
/// `%Y-%m-%dT%H:%M:%SZ`, and on `Datelike::year`, `month` (documented to range
/// from 1 to 12) and `day` (documented to range from 1 to 31) for its date.
#[verifier::external_body]
fn parse_start_date(s: &str) -> (r: Option<(i32, u32, u32)>)
    ensures
        r == start_date_of(s@),
        r matches Some((y, m, d)) ==> 1 <= m <= 12 && 1 <= d <= 31,
{
    match chrono::NaiveDateTime::parse_from_str(s, "%Y-%m-%dT%H:%M:%SZ") {
        Ok(t) => Some(
            (chrono::Datelike::year(&t), chrono::Datelike::month(&t), chrono::Datelike::day(&t)),
        ),
        Err(_) => None,
    }
}

/// `n` zero-padded to at least four digits.
pub open spec fn four_digits(n: nat) -> Seq<char> {
    if n < 10 {
        seq!['0', '0', '0'] + decimal(n)
    } else if n < 100 {
        seq!['0', '0'] + decimal(n)
    } else if n < 1000 {
        seq!['0'] + decimal(n)
    } else {
        decimal(n)
    }
}

/// A year as a `%Y` field: four digits, with a sign outside years 0 to 9999.
pub open spec fn year_text(y: int) -> Seq<char> {
    if 0 <= y <= 9999 {
        four_digits(y as nat)
    } else if y > 9999 {
        seq!['+'] + four_digits(y as nat)
    } else {
        seq!['-'] + four_digits((-y) as nat)
    }
}

/// An integer in decimal, with a minus sign when negative.
pub open spec fn signed_text(n: int) -> Seq<char> {
    if n < 0 {
        seq!['-'] + decimal((-n) as nat)
    } else {
        decimal(n as nat)
    }
}

/// The name of the file that an activity is saved to: `./activities/MM-DD-<id>.json`.
pub open spec fn file_name_text(month: nat, day: nat, id: int) -> Seq<char> {
    "./activities/"@ + two_digits(month) + seq!['-'] + two_digits(day) + seq!['-'] + signed_text(id)
        + ".json"@
}

fn push_signed(s: &mut String, n: i64)
    ensures
        final(s)@ == old(s)@ + signed_text(n as int),
{
    if n < 0 {
        s.append("-");
        push_decimal(s, ((-(n + 1)) as u128) + 1);
    } else {
        push_decimal(s, n as u128);
    }
    proof {
        reveal_strlit("-");
        assert(final(s)@ =~= old(s)@ + signed_text(n as int));
    }
}

fn push_four_digits(s: &mut String, n: u32)
    ensures
        final(s)@ == old(s)@ + four_digits(n as nat),
{
    if n < 10 {
        s.append("000");
    } else if n < 100 {
        s.append("00");
    } else if n < 1000 {
        s.append("0");
    }
    push_decimal(s, n as u128);
    proof {
        reveal_strlit("000");
        reveal_strlit("00");
        reveal_strlit("0");
        assert(final(s)@ =~= old(s)@ + four_digits(n as nat));
    }
}

/// The name of the file that an activity of this date and id is saved to.
pub fn file_name(month: u32, day: u32, id: i64) -> (r: String)
    requires
        month < 100,
        day < 100,
    ensures
        r@ == file_name_text(month as nat, day as nat, id as int),
{
    let mut name = String::from_str("./activities/");
    push_two_digits(&mut name, month as u128);
    name.append("-");
    push_two_digits(&mut name, day as u128);
    name.append("-");
    push_signed(&mut name, id);
    name.append(".json");
    proof {
        reveal_strlit("-");
        assert(name@ =~= file_name_text(month as nat, day as nat, id as int));
    }
    name
}

/// The date of an activity as `MM-DD-YYYY`.
pub open spec fn date_text(year: int, month: nat, day: nat) -> Seq<char> {
    two_digits(month) + seq!['-'] + two_digits(day) + seq!['-'] + year_text(year)
}

/// Renders a date as `MM-DD-YYYY`.
pub fn format_date(year: i32, month: u32, day: u32) -> (r: String)
    requires
        month < 100,
        day < 100,
    ensures
        r@ == date_text(year as int, month as nat, day as nat),
{
    let mut text = String::new();
    push_two_digits(&mut text, month as u128);
    text.append("-");
    push_two_digits(&mut text, day as u128);
    text.append("-");
    if year > 9999 {
        text.append("+");
        push_four_digits(&mut text, year as u32);
    } else if year < 0 {
        text.append("-");
        push_four_digits(&mut text, ((-(year + 1)) as u32) + 1);
    } else {
        push_four_digits(&mut text, year as u32);
    }
    proof {
        reveal_strlit("-");
        reveal_strlit("+");
        assert(text@ =~= date_text(year as int, month as nat, day as nat));
    }
    text
}

/// The file an activity is saved to, named by the month and day it started
/// and its id; `None` when its start date cannot be read.
pub fn activity_file_name(activity: &Activity) -> (r: Option<String>)
    ensures
        match start_date_of(activity.start_date_local@) {
            Some((y, m, d)) => r matches Some(name) && name@ == file_name_text(
                m as nat,
                d as nat,
                activity.id as int,
            ),
            None => r is None,
        },
{
    match parse_start_date(activity.start_date_local.as_str()) {
        Some((_, month, day)) => Some(file_name(month, day, activity.id)),
        None => None,
    }
}

/// A distance of `hundredths` hundredths of a unit, with two decimals.
pub open spec fn hundredths_text(hundredths: nat) -> Seq<char> {
    decimal(hundredths / 100) + seq!['.'] + two_digits(hundredths % 100)
}

/// The distance line of a summary: kilometres or miles to two decimals.
pub open spec fn distance_line(lap_size: Seq<char>, distance: int) -> Seq<char> {
    let unit = lap_size_distance(lap_size)->0;
    let h = rounded_quotient(distance * 100, unit);
    "Distance: "@ + hundredths_text(h as nat) + if lap_size == "MILE"@ {
        "mi"@
    } else {
        "K"@
    }
}

/// The pace line of a summary, per kilometre or per mile.
pub open spec fn pace_line(lap_size: Seq<char>, distance: int, moving_time: int) -> Seq<char> {
    let unit = lap_size_distance(lap_size)->0;
    "Pace: "@ + duration_text(pace_seconds(unit, distance, moving_time)) + if lap_size == "MILE"@ {
        " min/mi"@
    } else {
        " min/k"@
    }
}

/// The summary lines of a distance and moving time: the distance and pace in
/// the unit of `lap_size` (the pace only for a distance above zero; neither for
/// an unknown lap size), then the moving time.
pub open spec fn totals_lines(lap_size: Seq<char>, distance: int, moving_time: int) -> Seq<Seq<char>> {
    let per_unit = if lap_size_distance(lap_size) is None {
        seq![]
    } else if distance == 0 {
        seq![distance_line(lap_size, distance)]
    } else {
        seq![distance_line(lap_size, distance), pace_line(lap_size, distance, moving_time)]
    };
    per_unit + seq!["Moving Time: "@ + duration_text(moving_time)]
}

fn distance_line_string(lap_size: &str, unit: i64, distance: u64) -> (r: String)
    requires
        lap_size_distance(lap_size@) == Some(unit as int),
        distance <= i64::MAX,
    ensures
        r@ == distance_line(lap_size@, distance as int),
{
    let h: u128 = (2 * (distance as u128 * 100) + unit as u128) / (2 * unit as u128);
    let mut line = String::from_str("Distance: ");
    push_decimal(&mut line, h / 100);
    line.append(".");
    push_two_digits(&mut line, h % 100);
    let mile = crate::text::str_equals(lap_size, "MILE");
    if mile {
        line.append("mi");
    } else {
        line.append("K");
    }
    proof {
        reveal_strlit(".");
        assert(line@ =~= distance_line(lap_size@, distance as int));
    }
    line
}

fn pace_line_string(lap_size: &str, unit: i64, distance: u64, moving_time: i64) -> (r: String)
    requires
        lap_size_distance(lap_size@) == Some(unit as int),
        0 < distance <= i64::MAX,
    ensures
        r@ == pace_line(lap_size@, distance as int, moving_time as int),
{
    let mut line = String::from_str("Pace: ");
    match format_pace(unit as u32, distance as i64, moving_time) {
        Ok(p) => line.append(p.as_str()),
        Err(_) => {},
    }
    if crate::text::str_equals(lap_size, "MILE") {
        line.append(" min/mi");
    } else {
        line.append(" min/k");
    }
    line
}

/// The summary lines of a distance (in centimetres) and a moving time.
pub fn summary_totals(lap_size: &str, distance: u64, moving_time: i64) -> (r: Vec<String>)
    requires
        distance <= i64::MAX,
    ensures
        string_views(r@) == totals_lines(lap_size@, distance as int, moving_time as int),
{
    let mut lines: Vec<String> = Vec::new();
    match lap_distance(lap_size) {
        Some(unit) => {
            lines.push(distance_line_string(lap_size, unit, distance));
            if distance > 0 {
                lines.push(pace_line_string(lap_size, unit, distance, moving_time));
            }
        },
        None => {},
    }
    let mut last = String::from_str("Moving Time: ");
    let t = format_time(moving_time as i128);
    last.append(t.as_str());
    lines.push(last);
    proof {
        assert(string_views(lines@) =~= totals_lines(lap_size@, distance as int, moving_time as int));
    }
    lines
}

/// The lines that summarise one activity: its name, its date as `MM-DD-YYYY`,
/// its distance and pace in the unit of `lap_size`, and its moving time;
/// `None` when its start date cannot be read.
pub fn get_summary(lap_size: &str, activity: &Activity) -> (r: Option<Vec<String>>)
    ensures
        match start_date_of(activity.start_date_local@) {
            Some((y, m, d)) => r matches Some(lines) && string_views(lines@) == seq![
                activity.name@,
                "Date: "@ + date_text(y as int, m as nat, d as nat),
            ] + totals_lines(lap_size@, activity.distance as int, activity.moving_time as int),
            None => r is None,
        },
{
    match parse_start_date(activity.start_date_local.as_str()) {
        Some((year, month, day)) => {
            let mut date = String::from_str("Date: ");
            let text = format_date(year, month, day);
            date.append(text.as_str());
            let mut lines: Vec<String> = Vec::new();
            lines.push(activity.name.clone());
            lines.push(date);
            let rest = summary_totals(lap_size, activity.distance as u64, activity.moving_time as i64);
            let mut i: usize = 0;
            proof {
                assert(string_views(lines@) =~= seq![
                    activity.name@,
                    "Date: "@ + date_text(year as int, month as nat, day as nat),
                ] + string_views(rest@).subrange(0, 0));
            }
            while i < rest.len()
                invariant
                    i <= rest@.len(),
                    string_views(lines@) == seq![
                        activity.name@,
                        "Date: "@ + date_text(year as int, month as nat, day as nat),
                    ] + string_views(rest@).subrange(0, i as int),
                decreases rest@.len() - i,
            {
                let item = rest[i].clone();
                proof {
                    assert(string_views(rest@).subrange(0, i + 1) =~= string_views(rest@).subrange(
                        0,
                        i as int,
                    ).push(item@));
                    assert(string_views(lines@.push(item)) =~= string_views(lines@).push(item@));
                }
                lines.push(item);
                i = i + 1;
            }
            proof {
                assert(string_views(rest@).subrange(0, rest@.len() as int) =~= string_views(rest@));
            }
            Some(lines)
        },
        None => None,
    }
}

/// The lines that summarise a week of activities: a heading, then the total
/// distance and pace in the unit of `lap_size` and the total moving time;
/// `None` when a total does not fit in 64 bits.
pub fn get_week_summary(lap_size: &str, activities: &Vec<Activity>) -> (r: Option<Vec<String>>)
    ensures
        (distance_sum(activities@) <= i64::MAX && i64::MIN <= moving_time_sum(activities@)
            <= i64::MAX) <==> r is Some,
        r matches Some(lines) ==> string_views(lines@) == seq!["Week Overview"@] + totals_lines(
            lap_size@,
            distance_sum(activities@),
            moving_time_sum(activities@),
        ),
{
    let (distance, moving_time) = week_totals(activities);
    if distance > 0x7fff_ffff_ffff_ffff || moving_time > 0x7fff_ffff_ffff_ffff || moving_time
        < -0x8000_0000_0000_0000 {
        return None;
    }
    let mut lines: Vec<String> = Vec::new();
    lines.push(String::from_str("Week Overview"));
    let rest = summary_totals(lap_size, distance as u64, moving_time as i64);
    let mut i: usize = 0;
    proof {
        assert(string_views(lines@) =~= seq!["Week Overview"@] + string_views(rest@).subrange(0, 0));
    }
    while i < rest.len()
        invariant
            i <= rest@.len(),
            string_views(lines@) == seq!["Week Overview"@] + string_views(rest@).subrange(0, i as int),
        decreases rest@.len() - i,
    {
        let item = rest[i].clone();
        proof {
            assert(string_views(rest@).subrange(0, i + 1) =~= string_views(rest@).subrange(
                0,
                i as int,
            ).push(item@));
            assert(string_views(lines@.push(item)) =~= string_views(lines@).push(item@));
        }
        lines.push(item);
        i = i + 1;
    }
    proof {
        assert(string_views(rest@).subrange(0, rest@.len() as int) =~= string_views(rest@));
    }
    Some(lines)
}

} // verus!
