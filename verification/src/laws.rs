//! What holds of the rendering as a whole: the year that is written, the
//! marks of approximate values and of ranges, and that equal values give
//! equal text.

use vstd::prelude::*;
use crate::decimal::{
    all_digits, decimal, digit_char, is_digit, lemma_decimal, lemma_two_figures, numeral_value,
    signed_decimal, tz_hours,
};
use crate::edtf::{
    approximate_mark, emitted_year, minutes_tz_text, month_day_text, range_endpoint, tz_text,
    unsigned_minutes, ToEdtf,
};
use crate::parse::{outcome_text, parsed_date};
use gedcomx_date::{Date, DateTime, DateTimeOrDuration, GedcomxDate, Range, Simple, Time};

verus! {

/// How many times `c` occurs in `text`.
pub open spec fn count_char(text: Seq<char>, c: char) -> nat
    decreases text.len(),
{
    if text.len() == 0 {
        0
    } else {
        count_char(text.drop_last(), c) + if text.last() == c {
            1nat
        } else {
            0nat
        }
    }
}

/// Whether `c` can occur in the text of a date and time: a digit, the `-`
/// and `:` between fields, the `T` before a time, the sign of a year or of
/// a time zone.
pub open spec fn is_date_time_char(c: char) -> bool {
    is_digit(c) || c == '-' || c == '+' || c == ':' || c == 'T'
}

/// Whether every character of `text` can occur in the text of a date and
/// time.
pub open spec fn is_date_time_text(text: Seq<char>) -> bool {
    forall|i: int| 0 <= i < text.len() ==> is_date_time_char(#[trigger] text[i])
}

/// Occurrences in a concatenation are those in its two parts together.
pub proof fn lemma_count_concat(a: Seq<char>, b: Seq<char>, c: char)
    ensures
        count_char(a + b, c) == count_char(a, c) + count_char(b, c),
    decreases b.len(),
{
    if b.len() == 0 {
        assert(a + b =~= a);
    } else {
        assert((a + b).drop_last() =~= a + b.drop_last());
        lemma_count_concat(a, b.drop_last(), c);
    }
}

/// A character that is nowhere in a text occurs in it zero times.
pub proof fn lemma_count_absent(text: Seq<char>, c: char)
    requires
        forall|i: int| 0 <= i < text.len() ==> text[i] != c,
    ensures
        count_char(text, c) == 0,
    decreases text.len(),
{
    if text.len() > 0 {
        lemma_count_absent(text.drop_last(), c);
    }
}

/// In a text of one character, that character occurs once and every other
/// not at all.
pub proof fn lemma_count_single(only: char, c: char)
    ensures
        count_char(seq![only], c) == if only == c {
            1nat
        } else {
            0nat
        },
{
    assert(seq![only].drop_last() =~= Seq::<char>::empty());
    assert(count_char(seq![only].drop_last(), c) == 0);
}

/// A character that cannot occur in the text of a date and time occurs
/// zero times in every such text.
pub proof fn lemma_count_foreign(text: Seq<char>, c: char)
    requires
        is_date_time_text(text),
        !is_date_time_char(c),
    ensures
        count_char(text, c) == 0,
{
    lemma_count_absent(text, c);
}

proof fn lemma_signed_decimal_chars(v: int)
    ensures
        is_date_time_text(signed_decimal(v)),
{
    if v < 0 {
        lemma_decimal((-v) as nat);
    } else {
        lemma_decimal(v as nat);
    }
}

proof fn lemma_month_day_chars(month: Option<u32>, day: Option<u32>)
    ensures
        is_date_time_text(month_day_text(month, day)),
{
    if let Some(m) = month {
        lemma_two_figures(m as nat);
        if let Some(d) = day {
            lemma_two_figures(d as nat);
        }
    }
}

proof fn lemma_minutes_tz_chars(
    minutes: Option<u32>,
    tz_offset_hours: Option<i32>,
    tz_offset_minutes: Option<i32>,
)
    ensures
        is_date_time_text(minutes_tz_text(minutes, tz_offset_hours, tz_offset_minutes)),
{
    if let Some(m) = minutes {
        lemma_two_figures(m as nat);
        if let Some(h) = tz_offset_hours {
            if h > 0 {
                lemma_two_figures(h as nat);
            } else {
                lemma_two_figures((-h) as nat);
            }
            assert(is_date_time_text(tz_hours(h as int)));
            if let Some(tm) = tz_offset_minutes {
                lemma_two_figures(unsigned_minutes(tm as int));
            }
            assert(is_date_time_text(tz_text(h, tz_offset_minutes)));
        }
    }
}

/// The text of a date holds nothing but digits, `-`, and the sign of the
/// year.
pub proof fn lemma_date_chars(date: Date)
    ensures
        is_date_time_text(date.edtf()),
{
    lemma_signed_decimal_chars(emitted_year(date.year as int));
    lemma_month_day_chars(date.month, date.day);
}

/// The text of a time begins with `T` and holds, after it, nothing but
/// digits, `:`, and the sign of the time zone.
pub proof fn lemma_time_chars(time: Time)
    ensures
        is_date_time_text(time.edtf()),
        time.edtf()[0] == 'T',
{
    lemma_two_figures(time.hours as nat);
    lemma_minutes_tz_chars(time.minutes, time.tz_offset_hours, time.tz_offset_minutes);
}

/// The text of a date and time holds none of the marks that are put
/// around it: no `~`, no `/`, no bracket, comma or full stop.
pub proof fn lemma_date_time_chars(moment: DateTime)
    ensures
        is_date_time_text(moment.edtf()),
        !is_date_time_char('~'),
        !is_date_time_char('/'),
        !is_date_time_char('['),
        !is_date_time_char(']'),
        !is_date_time_char(','),
        !is_date_time_char('.'),
{
    lemma_date_chars(moment.date);
    if let Some(t) = moment.time {
        lemma_time_chars(t);
    }
}

/// A year above zero, with no month and no time, is written as its
/// decimal numeral and nothing else; and the numeral, read in base ten,
/// is the year.
pub proof fn lemma_year_alone(simple: Simple)
    requires
        simple.date.year > 0,
        simple.date.month is None,
        simple.time is None,
        !simple.approximate,
    ensures
        simple.date.edtf() == decimal(simple.date.year as nat),
        simple.edtf() == decimal(simple.date.year as nat),
        GedcomxDate::Simple(simple).edtf() == decimal(simple.date.year as nat),
        all_digits(simple.edtf()),
        numeral_value(simple.edtf()) == simple.date.year,
{
    lemma_decimal(simple.date.year as nat);
    assert(simple.date.edtf() =~= decimal(simple.date.year as nat));
    assert(simple.edtf() =~= decimal(simple.date.year as nat));
}

/// A year of zero or below is written one lower than it is: `-`, then the
/// numeral of one more than its magnitude. Year 0 is written `-1`.
pub proof fn lemma_year_before_one(date: Date)
    requires
        date.year <= 0,
    ensures
        emitted_year(date.year as int) == date.year - 1,
        date.edtf() == signed_decimal(date.year - 1) + month_day_text(date.month, date.day),
        date.edtf() == seq!['-'] + decimal((1 - date.year) as nat) + month_day_text(
            date.month,
            date.day,
        ),
        date.month is None ==> date.edtf() == seq!['-'] + decimal((1 - date.year) as nat),
        date.year == 0 && date.month is None ==> date.edtf() == seq!['-', '1'],
{
    let numeral = decimal((1 - date.year) as nat);
    assert(signed_decimal(date.year - 1) == seq!['-'] + numeral);
    if date.month is None {
        assert(date.edtf() =~= seq!['-'] + numeral);
        if date.year == 0 {
            assert(seq!['-'] + decimal(1) =~= seq!['-', '1']);
        }
    }
}

/// The month and the day are each written in two figures while they are
/// below a hundred: after the year a `-` and the two figures of the month,
/// then a `-` and the two figures of the day. Below ten the first figure
/// is `0`.
pub proof fn lemma_date_fields(date: Date)
    requires
        date.month is Some,
        date.month->Some_0 < 100,
    ensures
        ({
            let year = signed_decimal(emitted_year(date.year as int));
            let k = year.len() as int;
            let m = date.month->Some_0 as int;
            &&& date.edtf().len() >= k + 3
            &&& date.edtf().subrange(0, k) == year
            &&& date.edtf()[k] == '-'
            &&& date.edtf()[k + 1] == digit_char(m / 10)
            &&& date.edtf()[k + 2] == digit_char(m % 10)
            &&& date.day is None ==> date.edtf().len() == k + 3
            &&& date.day matches Some(d) ==> d < 100 ==> {
                &&& date.edtf().len() == k + 6
                &&& date.edtf()[k + 3] == '-'
                &&& date.edtf()[k + 4] == digit_char(d as int / 10)
                &&& date.edtf()[k + 5] == digit_char(d as int % 10)
            }
        }),
{
    let year = signed_decimal(emitted_year(date.year as int));
    let k = year.len() as int;
    lemma_two_figures(date.month->Some_0 as nat);
    if let Some(d) = date.day {
        lemma_two_figures(d as nat);
    }
    assert(date.edtf().subrange(0, k) =~= year);
}

/// The hours and the minutes are each written in two figures while they
/// are below a hundred: `T` and the two figures of the hours, then `:` and
/// the two figures of the minutes. Below ten the first figure is `0`.
pub proof fn lemma_time_fields(time: Time)
    requires
        time.hours < 100,
    ensures
        time.edtf().len() >= 3,
        time.edtf()[0] == 'T',
        time.edtf()[1] == digit_char(time.hours as int / 10),
        time.edtf()[2] == digit_char(time.hours as int % 10),
        time.minutes is None ==> time.edtf().len() == 3,
        time.minutes matches Some(m) ==> m < 100 ==> {
            &&& time.edtf().len() >= 6
            &&& time.edtf()[3] == ':'
            &&& time.edtf()[4] == digit_char(m as int / 10)
            &&& time.edtf()[5] == digit_char(m as int % 10)
        },
{
    lemma_two_figures(time.hours as nat);
    if let Some(m) = time.minutes {
        lemma_two_figures(m as nat);
    }
}

/// An approximate simple date is its date and time with one `~` after
/// them, the only one in the text. An exact one is its date and time
/// alone, with no `~` anywhere.
pub proof fn lemma_approximate_mark(simple: Simple)
    ensures
        simple.approximate ==> simple.edtf() == (DateTime {
            date: simple.date,
            time: simple.time,
        }).edtf().push('~'),
        simple.approximate ==> simple.edtf().last() == '~',
        simple.approximate ==> count_char(simple.edtf(), '~') == 1,
        !simple.approximate ==> simple.edtf() == (DateTime {
            date: simple.date,
            time: simple.time,
        }).edtf(),
        !simple.approximate ==> count_char(simple.edtf(), '~') == 0,
{
    let moment = DateTime { date: simple.date, time: simple.time };
    lemma_date_time_chars(moment);
    lemma_count_foreign(moment.edtf(), '~');
    if simple.approximate {
        assert(simple.edtf() =~= moment.edtf().push('~'));
        assert(moment.edtf().push('~') =~= moment.edtf() + seq!['~']);
        lemma_count_concat(moment.edtf(), seq!['~'], '~');
        lemma_count_single('~', '~');
    } else {
        assert(simple.edtf() =~= moment.edtf());
    }
}

/// One end of a range holds, besides the characters of a date and time,
/// at most the `~` after them: none of `c` where `c` is neither.
pub proof fn lemma_endpoint_count(moment: DateTime, approximate: bool, c: char)
    requires
        !is_date_time_char(c),
        c != '~',
    ensures
        count_char(range_endpoint(moment, approximate), c) == 0,
{
    lemma_date_time_chars(moment);
    lemma_count_foreign(moment.edtf(), c);
    lemma_count_concat(moment.edtf(), approximate_mark(approximate), c);
    if approximate {
        lemma_count_single('~', c);
    }
}

/// A range with both ends, the far one a date and time, is written as
/// the two ends with one `/` between them, the only one in the text, and
/// without brackets.
pub proof fn lemma_closed_range(range: Range, start: DateTime, end: DateTime)
    requires
        range.start == Some(start),
        range.end == Some(DateTimeOrDuration::DateTime(end)),
    ensures
        range.edtf() == range_endpoint(start, range.approximate) + seq!['/'] + range_endpoint(
            end,
            range.approximate,
        ),
        count_char(range.edtf(), '/') == 1,
        count_char(range.edtf(), '[') == 0,
        count_char(range.edtf(), ']') == 0,
        count_char(range.edtf(), ',') == 0,
        count_char(range.edtf(), '.') == 0,
{
    let first = range_endpoint(start, range.approximate);
    let second = range_endpoint(end, range.approximate);
    lemma_date_time_chars(start);
    assert forall|c: char| c == '/' || c == '[' || c == ']' || c == ',' || c == '.' implies (
    #[trigger] count_char(range.edtf(), c)) == if c == '/' {
        1nat
    } else {
        0nat
    } by {
        lemma_endpoint_count(start, range.approximate, c);
        lemma_endpoint_count(end, range.approximate, c);
        lemma_count_concat(first, seq!['/'], c);
        lemma_count_concat(first + seq!['/'], second, c);
        lemma_count_single('/', c);
    }
}

/// A range with a start and no end is written `[`, the start, `,..]`:
/// one pair of brackets, one comma with the two full stops after it, and
/// no `/`.
pub proof fn lemma_range_without_end(range: Range, start: DateTime)
    requires
        range.start == Some(start),
        range.end is None,
    ensures
        range.edtf() == seq!['['] + range_endpoint(start, range.approximate) + seq![
            ',',
            '.',
            '.',
            ']',
        ],
        count_char(range.edtf(), '[') == 1,
        count_char(range.edtf(), ']') == 1,
        count_char(range.edtf(), ',') == 1,
        count_char(range.edtf(), '.') == 2,
        count_char(range.edtf(), '/') == 0,
        range.edtf().first() == '[',
        range.edtf().last() == ']',
{
    let inner = range_endpoint(start, range.approximate);
    let tail = seq![',', '.', '.', ']'];
    lemma_date_time_chars(start);
    assert forall|c: char| c == '/' || c == '[' || c == ']' || c == ',' || c == '.' implies (
    #[trigger] count_char(range.edtf(), c)) == if c == '/' {
        0nat
    } else if c == '.' {
        2nat
    } else {
        1nat
    } by {
        lemma_endpoint_count(start, range.approximate, c);
        lemma_count_concat(seq!['['], inner, c);
        lemma_count_concat(seq!['['] + inner, tail, c);
        lemma_count_single('[', c);
        lemma_count_marker(tail, c);
    }
}

/// A range with an end, a date and time, and no start is written `[..,`,
/// the end, `]`: one pair of brackets, two full stops with one comma
/// after them, and no `/`.
pub proof fn lemma_range_without_start(range: Range, end: DateTime)
    requires
        range.start is None,
        range.end == Some(DateTimeOrDuration::DateTime(end)),
    ensures
        range.edtf() == seq!['[', '.', '.', ','] + range_endpoint(end, range.approximate) + seq![
            ']',
        ],
        count_char(range.edtf(), '[') == 1,
        count_char(range.edtf(), ']') == 1,
        count_char(range.edtf(), ',') == 1,
        count_char(range.edtf(), '.') == 2,
        count_char(range.edtf(), '/') == 0,
        range.edtf().first() == '[',
        range.edtf().last() == ']',
{
    let inner = range_endpoint(end, range.approximate);
    let head = seq!['[', '.', '.', ','];
    lemma_date_time_chars(end);
    assert forall|c: char| c == '/' || c == '[' || c == ']' || c == ',' || c == '.' implies (
    #[trigger] count_char(range.edtf(), c)) == if c == '/' {
        0nat
    } else if c == '.' {
        2nat
    } else {
        1nat
    } by {
        lemma_endpoint_count(end, range.approximate, c);
        lemma_count_concat(head, inner, c);
        lemma_count_concat(head + inner, seq![']'], c);
        lemma_count_single(']', c);
        lemma_count_marker(head, c);
    }
}

/// A range whose far end is a duration, and one with neither end, is
/// written as the empty text.
pub proof fn lemma_range_not_written(range: Range)
    requires
        range.end matches Some(DateTimeOrDuration::Duration(_)) || (range.start is None
            && range.end is None),
    ensures
        range.edtf() == Seq::<char>::empty(),
{
}

proof fn lemma_count_marker(marker: Seq<char>, c: char)
    requires
        marker.len() == 4,
    ensures
        count_char(marker, c) == count_char(seq![marker[0]], c) + count_char(seq![marker[1]], c)
            + count_char(seq![marker[2]], c) + count_char(seq![marker[3]], c),
        forall|i: int|
            0 <= i < 4 ==> #[trigger] count_char(seq![marker[i]], c) == if marker[i] == c {
                1nat
            } else {
                0nat
            },
{
    let a = seq![marker[0]];
    let b = seq![marker[1]];
    let d = seq![marker[2]];
    let e = seq![marker[3]];
    assert(marker =~= a + b + d + e);
    lemma_count_concat(a, b, c);
    lemma_count_concat(a + b, d, c);
    lemma_count_concat(a + b + d, e, c);
    assert forall|i: int| 0 <= i < 4 implies #[trigger] count_char(seq![marker[i]], c)
        == if marker[i] == c {
        1nat
    } else {
        0nat
    } by {
        lemma_count_single(marker[i], c);
    }
}

/// The text of a date depends on the date alone: equal dates are written
/// alike.
pub proof fn lemma_rendering_is_determined(a: GedcomxDate, b: GedcomxDate)
    requires
        a == b,
    ensures
        a.edtf() == b.edtf(),
{
}

/// What a text is converted to depends on the text alone: equal texts are
/// converted alike.
pub proof fn lemma_conversion_is_determined(a: Seq<char>, b: Seq<char>)
    requires
        a == b,
    ensures
        outcome_text(parsed_date(a)) == outcome_text(parsed_date(b)),
{
}

} // verus!
