//! The clock: the text for a time of day and a date.

use crate::slicing::append;
use vstd::prelude::*;
use vstd::string::*;

verus! {

/// The clock widget of the bar.
pub struct ClockModule;

/// A number below 100 in two decimal digits.
pub open spec fn two_digits(v: u8) -> Seq<u8> {
    seq![(0x30 + v / 10) as u8, (0x30 + v % 10) as u8]
}

/// The name of a day of the week in three letters; the week begins with
/// Monday as day 0.
pub open spec fn weekday_name(weekday: u8) -> Seq<u8> {
    if weekday == 0 {
        "Mon".spec_bytes()
    } else if weekday == 1 {
        "Tue".spec_bytes()
    } else if weekday == 2 {
        "Wed".spec_bytes()
    } else if weekday == 3 {
        "Thu".spec_bytes()
    } else if weekday == 4 {
        "Fri".spec_bytes()
    } else if weekday == 5 {
        "Sat".spec_bytes()
    } else {
        "Sun".spec_bytes()
    }
}

/// The name of a month in three letters; January is month 1.
pub open spec fn month_name(month: u8) -> Seq<u8> {
    if month == 1 {
        "Jan".spec_bytes()
    } else if month == 2 {
        "Feb".spec_bytes()
    } else if month == 3 {
        "Mar".spec_bytes()
    } else if month == 4 {
        "Apr".spec_bytes()
    } else if month == 5 {
        "May".spec_bytes()
    } else if month == 6 {
        "Jun".spec_bytes()
    } else if month == 7 {
        "Jul".spec_bytes()
    } else if month == 8 {
        "Aug".spec_bytes()
    } else if month == 9 {
        "Sep".spec_bytes()
    } else if month == 10 {
        "Oct".spec_bytes()
    } else if month == 11 {
        "Nov".spec_bytes()
    } else {
        "Dec".spec_bytes()
    }
}

/// Hour, minute and second are those of a time of day; a second of 60 is
/// a leap second.
pub open spec fn is_time(hour: u8, minute: u8, second: u8) -> bool {
    hour < 24 && minute < 60 && second <= 60
}

/// Weekday, day and month are those of a date.
pub open spec fn is_date(weekday: u8, day: u8, month: u8) -> bool {
    weekday < 7 && 1 <= day <= 31 && 1 <= month <= 12
}

/// The time of day as `HH:MM:SS`.
pub open spec fn time_text(hour: u8, minute: u8, second: u8) -> Seq<u8> {
    two_digits(hour) + seq![0x3au8] + two_digits(minute) + seq![0x3au8] + two_digits(second)
}

/// Time and date as `HH:MM`, two spaces, and the weekday, the day and
/// the month with a space between them.
pub open spec fn date_time_text(hour: u8, minute: u8, weekday: u8, day: u8, month: u8) -> Seq<u8> {
    two_digits(hour) + seq![0x3au8] + two_digits(minute) + seq![0x20u8, 0x20u8] + weekday_name(
        weekday,
    ) + seq![0x20u8] + two_digits(day) + seq![0x20u8] + month_name(month)
}

/// Appends a number below 100 in two decimal digits.
fn push_two_digits(out: &mut Vec<u8>, v: u8)
    requires
        v < 100,
    ensures
        final(out)@ == old(out)@ + two_digits(v),
{
    out.push(0x30 + v / 10);
    out.push(0x30 + v % 10);
    assert(out@ =~= old(out)@ + two_digits(v));
}

/// The name of a day of the week in three letters.
fn weekday_text(weekday: u8) -> (name: &'static str)
    ensures
        name.spec_bytes() == weekday_name(weekday),
{
    if weekday == 0 {
        "Mon"
    } else if weekday == 1 {
        "Tue"
    } else if weekday == 2 {
        "Wed"
    } else if weekday == 3 {
        "Thu"
    } else if weekday == 4 {
        "Fri"
    } else if weekday == 5 {
        "Sat"
    } else {
        "Sun"
    }
}

/// The name of a month in three letters.
fn month_text(month: u8) -> (name: &'static str)
    ensures
        name.spec_bytes() == month_name(month),
{
    if month == 1 {
        "Jan"
    } else if month == 2 {
        "Feb"
    } else if month == 3 {
        "Mar"
    } else if month == 4 {
        "Apr"
    } else if month == 5 {
        "May"
    } else if month == 6 {
        "Jun"
    } else if month == 7 {
        "Jul"
    } else if month == 8 {
        "Aug"
    } else if month == 9 {
        "Sep"
    } else if month == 10 {
        "Oct"
    } else if month == 11 {
        "Nov"
    } else {
        "Dec"
    }
}

impl ClockModule {
    /// The text of the clock for a time of day; `None` where the numbers
    /// are not those of a time.
    pub fn format_time(hour: u8, minute: u8, second: u8) -> (text: Option<Vec<u8>>)
        ensures
            match text {
                Some(t) => is_time(hour, minute, second) && t@ == time_text(hour, minute, second),
                None => !is_time(hour, minute, second),
            },
    {
        if hour < 24 && minute < 60 && second <= 60 {
            let mut out: Vec<u8> = Vec::new();
            push_two_digits(&mut out, hour);
            out.push(0x3a);
            push_two_digits(&mut out, minute);
            out.push(0x3a);
            push_two_digits(&mut out, second);
            assert(out@ =~= time_text(hour, minute, second));
            Some(out)
        } else {
            None
        }
    }
}

/// The text of the clock button for a time and a date; `None` where the
/// numbers are not those of a time and a date.
pub fn update_time(hour: u8, minute: u8, weekday: u8, day: u8, month: u8) -> (text: Option<
    Vec<u8>,
>)
    ensures
        match text {
            Some(t) => is_time(hour, minute, 0) && is_date(weekday, day, month) && t@
                == date_time_text(hour, minute, weekday, day, month),
            None => !(is_time(hour, minute, 0) && is_date(weekday, day, month)),
        },
{
    if hour < 24 && minute < 60 && weekday < 7 && 1 <= day && day <= 31 && 1 <= month && month
        <= 12 {
        let mut out: Vec<u8> = Vec::new();
        push_two_digits(&mut out, hour);
        out.push(0x3a);
        push_two_digits(&mut out, minute);
        out.push(0x20);
        out.push(0x20);
        let ghost head = out@;
        assert(head =~= two_digits(hour) + seq![0x3au8] + two_digits(minute) + seq![
            0x20u8,
            0x20u8,
        ]);
        append(&mut out, weekday_text(weekday).as_bytes());
        out.push(0x20);
        push_two_digits(&mut out, day);
        out.push(0x20);
        append(&mut out, month_text(month).as_bytes());
        assert(out@ =~= date_time_text(hour, minute, weekday, day, month));
        Some(out)
    } else {
        None
    }
}

} // verus!
