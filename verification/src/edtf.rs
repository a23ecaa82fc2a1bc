//! Rendering of the date model as Extended Date/Time Format text.

use vstd::prelude::*;
use crate::decimal::{
    fill_double_figure, fill_tz_hours, signed_decimal, signed_decimal_string, two_figures,
    tz_hours,
};
use gedcomx_date::{
    Date, DateTime, DateTimeOrDuration, GedcomxDate, Range, Recurring, Simple, Time,
};

verus! {

/// A value that has an EDTF rendering.
pub trait ToEdtf {
    /// The EDTF text of the value.
    spec fn edtf(&self) -> Seq<char>;

    /// Renders the value as EDTF text.
    fn to_edtf(&self) -> (text: String)
        ensures
            text@ == self.edtf(),
    ;
}

/// The year that is written for a year of the model. The model holds
/// the year before year 1 as 0, and the text writes it as -1: a year of
/// zero or below is written one lower than it is held.
pub open spec fn emitted_year(year: int) -> int {
    if year <= 0 {
        year - 1
    } else {
        year
    }
}

/// What follows the year of a date: `-MM` for a month, and `-DD` after
/// it for a day. A day without a month is left out.
pub open spec fn month_day_text(month: Option<u32>, day: Option<u32>) -> Seq<char> {
    match month {
        Some(m) => seq!['-'] + two_figures(m as nat) + match day {
            Some(d) => seq!['-'] + two_figures(d as nat),
            None => Seq::empty(),
        },
        None => Seq::empty(),
    }
}

/// The minutes of a time zone offset as they are written. The model gives
/// them a sign; they are written unsigned, a negative count taken modulo
/// 2^32.
pub open spec fn unsigned_minutes(minutes: int) -> nat {
    if minutes < 0 {
        (minutes + 0x1_0000_0000) as nat
    } else {
        minutes as nat
    }
}

/// The offset of a time zone: sign and hours, then `:MM` where its minutes
/// are given.
pub open spec fn tz_text(hours: i32, minutes: Option<i32>) -> Seq<char> {
    tz_hours(hours as int) + match minutes {
        Some(m) => seq![':'] + two_figures(unsigned_minutes(m as int)),
        None => Seq::empty(),
    }
}

/// What follows the hours of a time: `:MM` for the minutes, and the time
/// zone after them. A time zone without minutes is left out, and so are
/// the minutes of a time zone without its hours.
pub open spec fn minutes_tz_text(
    minutes: Option<u32>,
    tz_offset_hours: Option<i32>,
    tz_offset_minutes: Option<i32>,
) -> Seq<char> {
    match minutes {
        Some(m) => seq![':'] + two_figures(m as nat) + match tz_offset_hours {
            Some(h) => tz_text(h, tz_offset_minutes),
            None => Seq::empty(),
        },
        None => Seq::empty(),
    }
}

/// The text of a time where there is one, and nothing where there is none.
pub open spec fn time_text(time: Option<Time>) -> Seq<char> {
    match time {
        Some(t) => t.edtf(),
        None => Seq::empty(),
    }
}

/// The mark of an approximate value, `~`, or nothing for an exact one.
pub open spec fn approximate_mark(approximate: bool) -> Seq<char> {
    if approximate {
        seq!['~']
    } else {
        Seq::empty()
    }
}

/// One end of a range: its date and time, marked where the range is
/// approximate.
pub open spec fn range_endpoint(date: DateTime, approximate: bool) -> Seq<char> {
    date.edtf() + approximate_mark(approximate)
}

/// The text that stands for every recurring date.
pub open spec fn recurring_text() -> Seq<char> {
    "recurring dates are not supported yet"@
}

impl ToEdtf for Date {
    open spec fn edtf(&self) -> Seq<char> {
        signed_decimal(emitted_year(self.year as int)) + month_day_text(self.month, self.day)
    }

    fn to_edtf(&self) -> (text: String) {
        let year: i64 = if self.year <= 0 {
            self.year as i64 - 1
        } else {
            self.year as i64
        };
        let mut text = signed_decimal_string(year);
        match self.month {
            Some(m) => {
                text.append("-");
                text.append(fill_double_figure(m).as_str());
                match self.day {
                    Some(d) => {
                        text.append("-");
                        text.append(fill_double_figure(d).as_str());
                    },
                    None => {},
                }
            },
            None => {},
        }
        proof {
            reveal_strlit("-");
            assert(text@ =~= self.edtf());
        }
        text
    }
}

impl ToEdtf for Time {
    open spec fn edtf(&self) -> Seq<char> {
        seq!['T'] + two_figures(self.hours as nat) + minutes_tz_text(
            self.minutes,
            self.tz_offset_hours,
            self.tz_offset_minutes,
        )
    }

    fn to_edtf(&self) -> (text: String) {
        let mut text = String::from_str("T");
        text.append(fill_double_figure(self.hours).as_str());
        match self.minutes {
            Some(m) => {
                text.append(":");
                text.append(fill_double_figure(m).as_str());
                match self.tz_offset_hours {
                    Some(th) => {
                        text.append(fill_tz_hours(th).as_str());
                        match self.tz_offset_minutes {
                            Some(tm) => {
                                let unsigned: u32 = if tm < 0 {
                                    (tm as i64 + 0x1_0000_0000) as u32
                                } else {
                                    tm as u32
                                };
                                text.append(":");
                                text.append(fill_double_figure(unsigned).as_str());
                            },
                            None => {},
                        }
                    },
                    None => {},
                }
            },
            None => {},
        }
        proof {
            reveal_strlit("T");
            reveal_strlit(":");
            assert(text@ =~= self.edtf());
        }
        text
    }
}

impl ToEdtf for DateTime {
    open spec fn edtf(&self) -> Seq<char> {
        self.date.edtf() + time_text(self.time)
    }

    fn to_edtf(&self) -> (text: String) {
        let mut text = self.date.to_edtf();
        match self.time {
            Some(t) => {
                text.append(t.to_edtf().as_str());
            },
            None => {},
        }
        assert(text@ =~= self.edtf());
        text
    }
}

impl ToEdtf for Simple {
    open spec fn edtf(&self) -> Seq<char> {
        self.date.edtf() + time_text(self.time) + approximate_mark(self.approximate)
    }

    fn to_edtf(&self) -> (text: String) {
        let mut text = self.date.to_edtf();
        match self.time {
            Some(t) => {
                text.append(t.to_edtf().as_str());
            },
            None => {},
        }
        if self.approximate {
            text.append("~");
        }
        proof {
            reveal_strlit("~");
            assert(text@ =~= self.edtf());
        }
        text
    }
}

/// Renders one end of a range, with `~` after it where the range is
/// approximate.
pub fn get_range_datetime(date: DateTime, approximate: bool) -> (text: String)
    ensures
        text@ == range_endpoint(date, approximate),
{
    let mut text = date.to_edtf();
    if approximate {
        text.append("~");
    }
    proof {
        reveal_strlit("~");
        assert(text@ =~= range_endpoint(date, approximate));
    }
    text
}

impl ToEdtf for Range {
    open spec fn edtf(&self) -> Seq<char> {
        match (self.start, self.end) {
            (Some(s), Some(DateTimeOrDuration::DateTime(e))) => range_endpoint(s, self.approximate)
                + seq!['/'] + range_endpoint(e, self.approximate),
            (Some(s), None) => seq!['['] + range_endpoint(s, self.approximate) + seq![
                ',',
                '.',
                '.',
                ']',
            ],
            (None, Some(DateTimeOrDuration::DateTime(e))) => seq!['[', '.', '.', ',']
                + range_endpoint(e, self.approximate) + seq![']'],
            _ => Seq::empty(),
        }
    }

    fn to_edtf(&self) -> (text: String) {
        proof {
            reveal_strlit("/");
            reveal_strlit("[");
            reveal_strlit(",..]");
            reveal_strlit("[..,");
            reveal_strlit("]");
        }
        match self.start {
            Some(s) => {
                let mut text = get_range_datetime(s, self.approximate);
                match self.end {
                    Some(DateTimeOrDuration::DateTime(e)) => {
                        text.append("/");
                        text.append(get_range_datetime(e, self.approximate).as_str());
                        assert(text@ =~= self.edtf());
                        text
                    },
                    Some(DateTimeOrDuration::Duration(_)) => String::new(),
                    None => {
                        let mut open = String::from_str("[");
                        open.append(text.as_str());
                        open.append(",..]");
                        assert(open@ =~= self.edtf());
                        open
                    },
                }
            },
            None => match self.end {
                Some(DateTimeOrDuration::DateTime(e)) => {
                    let mut open = String::from_str("[..,");
                    open.append(get_range_datetime(e, self.approximate).as_str());
                    open.append("]");
                    assert(open@ =~= self.edtf());
                    open
                },
                Some(DateTimeOrDuration::Duration(_)) => String::new(),
                None => String::new(),
            },
        }
    }
}

impl ToEdtf for Recurring {
    open spec fn edtf(&self) -> Seq<char> {
        recurring_text()
    }

    fn to_edtf(&self) -> (text: String) {
        String::from_str("recurring dates are not supported yet")
    }
}

impl ToEdtf for GedcomxDate {
    open spec fn edtf(&self) -> Seq<char> {
        match *self {
            GedcomxDate::Simple(simple) => simple.edtf(),
            GedcomxDate::Range(range) => range.edtf(),
            GedcomxDate::Recurring(recurring) => recurring.edtf(),
        }
    }

    fn to_edtf(&self) -> (text: String) {
        match *self {
            GedcomxDate::Simple(simple) => simple.to_edtf(),
            GedcomxDate::Range(range) => range.to_edtf(),
            GedcomxDate::Recurring(recurring) => recurring.to_edtf(),
        }
    }
}

} // verus!
