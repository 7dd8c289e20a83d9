//! The `Period` type: every time filter and metric window.

use vstd::prelude::*;
use crate::calendar::{
    date_key, day_number, in_calendar, is_civil, is_iso_week, iso_week_of, lemma_calendar_bounds,
    lemma_day_in_year, lemma_december_28, lemma_iso_week_unique, lemma_iso_year, lemma_month_length,
    lemma_year_length, lemma_years_follow, month_of, week_monday, weeks_in_year, year_of, Date,
    MAX_YEAR, MIN_DAY, MIN_YEAR,
};
use crate::clock::{has_local_date, local_day, utc_day, Instant, Timezone};
use crate::error::{is_invalid, Error};
use crate::number::{
    decimal, is_digit, is_digits, law_integers_read_back, law_numbers_read_back, lemma_decimal_reads_back,
    lemma_padded_reads_back, padded, parse_signed, parse_unsigned, push_decimal, push_signed,
    push_two, signed_decimal, signed_value, unsigned_value,
};
use crate::storage::time_dimension::local_date_for;
use crate::text::{
    ascii_lower, ascii_upper, begins_with, contains, contains_char, first_index, has_text,
    is_ascii_text, is_blank_text, is_first_at, join3, law_trimming_ignores_surrounding_white_space,
    lower, lowercase, same, split_at_first, split_once, stands_at, strip_prefix, trim, trimmed, upper, uppercase,
};

verus! {

/// A named time window with period-over-period semantics.
#[derive(Debug, Clone, Copy, PartialEq, Eq, Structural)]
pub enum Period {
    Year(i32),
    Half(i32, u8),
    Quarter(i32, u8),
    Month(i32, u8),
    Week(i32, u8),
    /// Last N days ending on a date.
    Rolling(u32, Date),
}

/// The model of a period: its numbers, with a date as its day number.
pub ghost enum Span {
    Year(int),
    Half(int, int),
    Quarter(int, int),
    Month(int, int),
    Week(int, int),
    Rolling(int, int),
}

impl View for Period {
    type V = Span;

    open spec fn view(&self) -> Span {
        match *self {
            Period::Year(year) => Span::Year(year as int),
            Period::Half(year, half) => Span::Half(year as int, half as int),
            Period::Quarter(year, quarter) => Span::Quarter(year as int, quarter as int),
            Period::Month(year, month) => Span::Month(year as int, month as int),
            Period::Week(year, week) => Span::Week(year as int, week as int),
            Period::Rolling(days, end) => Span::Rolling(days as int, end@),
        }
    }
}

// ---------------------------------------------------------------- the model

/// The canonical key of a period.
pub open spec fn span_key(span: Span) -> Seq<char> {
    match span {
        Span::Year(year) => signed_decimal(year),
        Span::Half(year, half) => signed_decimal(year) + "-H"@ + decimal(half as nat),
        Span::Quarter(year, quarter) => signed_decimal(year) + "-Q"@ + decimal(quarter as nat),
        Span::Month(year, month) => signed_decimal(year) + "-"@ + padded(month as nat, 2),
        Span::Week(year, week) => signed_decimal(year) + "-W"@ + padded(week as nat, 2),
        Span::Rolling(days, _) => "last-"@ + decimal(days as nat),
    }
}

/// The first month of a quarter.
pub open spec fn quarter_month(quarter: int) -> int {
    (quarter - 1) * 3 + 1
}

/// The quarter that a month lies in.
pub open spec fn quarter_of_month(month: int) -> int {
    (month - 1) / 3 + 1
}

/// The day before the first day of the month after `month`.
pub open spec fn month_end(year: int, month: int) -> int {
    if month == 12 {
        day_number(year + 1, 1, 1) - 1
    } else {
        day_number(year, month + 1, 1) - 1
    }
}

/// The Monday of an ISO week; January 1 where the year has no such week, or
/// where the Monday lies before the calendar begins.
pub open spec fn week_start(year: int, week: int) -> int {
    if 1 <= week <= weeks_in_year(year) && in_calendar(week_monday(year, week)) {
        week_monday(year, week)
    } else {
        day_number(year, 1, 1)
    }
}

/// The first day of a period.
pub open spec fn span_start(span: Span) -> int {
    match span {
        Span::Year(year) => day_number(year, 1, 1),
        Span::Half(year, half) => day_number(
            year,
            if half == 1 {
                1
            } else {
                7
            },
            1,
        ),
        Span::Quarter(year, quarter) => day_number(year, quarter_month(quarter), 1),
        Span::Month(year, month) => day_number(year, month, 1),
        Span::Week(year, week) => week_start(year, week),
        Span::Rolling(days, end) => end - (days - 1),
    }
}

/// The last day of a period.
pub open spec fn span_end(span: Span) -> int {
    match span {
        Span::Year(year) => day_number(year, 12, 31),
        Span::Half(year, half) => month_end(
            year,
            if half == 1 {
                6
            } else {
                12
            },
        ),
        Span::Quarter(year, quarter) => month_end(year, quarter_month(quarter) + 2),
        Span::Month(year, month) => month_end(year, month),
        Span::Week(year, week) => week_start(year, week) + 6,
        Span::Rolling(_, end) => end,
    }
}

/// The year lies in the calendar, and so does the year after it where the
/// period ends with the year.
pub open spec fn year_fits(year: int, ends_year: bool) -> bool {
    MIN_YEAR <= year <= (if ends_year {
        MAX_YEAR - 1
    } else {
        MAX_YEAR as int
    })
}

/// Both ends of the period can be written as dates. A half, quarter or month
/// is measured from the first day behind it, which has to exist too.
pub open spec fn has_range(span: Span) -> bool {
    match span {
        Span::Year(year) => year_fits(year, false),
        Span::Half(year, half) => year_fits(year, half != 1),
        Span::Quarter(year, quarter) => 1 <= quarter <= 4 && year_fits(year, quarter == 4),
        Span::Month(year, month) => 1 <= month <= 12 && year_fits(year, month == 12),
        Span::Week(year, week) => year_fits(year, false) && in_calendar(week_start(year, week) + 6),
        Span::Rolling(days, end) => in_calendar(end - (days - 1)),
    }
}

/// The period before a period, of the same granularity.
pub open spec fn span_before(span: Span) -> Span {
    match span {
        Span::Year(year) => Span::Year(year - 1),
        Span::Half(year, half) => if half == 1 {
            Span::Half(year - 1, 2)
        } else {
            Span::Half(year, 1)
        },
        Span::Quarter(year, quarter) => if quarter == 1 {
            Span::Quarter(year - 1, 4)
        } else {
            Span::Quarter(year, quarter - 1)
        },
        Span::Month(year, month) => if month == 1 {
            Span::Month(year - 1, 12)
        } else {
            Span::Month(year, month - 1)
        },
        Span::Week(year, week) => if week <= 1 {
            Span::Week(year - 1, weeks_in_year(year - 1))
        } else {
            Span::Week(year, week - 1)
        },
        Span::Rolling(days, end) => Span::Rolling(days, end - days),
    }
}

/// The period before can be written down: its numbers fit their types and the
/// dates it is computed from exist.
pub open spec fn has_before(span: Span) -> bool {
    match span {
        Span::Year(year) => year > i32::MIN,
        Span::Half(year, half) => half == 1 ==> year > i32::MIN,
        Span::Quarter(year, quarter) => quarter >= 1 && (quarter == 1 ==> year > i32::MIN),
        Span::Month(year, month) => month >= 1 && (month == 1 ==> year > i32::MIN),
        Span::Week(year, week) => week <= 1 ==> MIN_YEAR <= year - 1 <= MAX_YEAR,
        Span::Rolling(days, end) => in_calendar(end - days),
    }
}

/// The ISO week of a day.
pub open spec fn week_around(day: int) -> Span {
    Span::Week(iso_week_of(day).0, iso_week_of(day).1)
}

/// The month of a day.
pub open spec fn month_around(day: int) -> Span {
    Span::Month(year_of(day), month_of(day))
}

/// The quarter of a day.
pub open spec fn quarter_around(day: int) -> Span {
    Span::Quarter(year_of(day), quarter_of_month(month_of(day)))
}

/// The half of the year that a month lies in.
pub open spec fn half_of_month(month: int) -> int {
    if month <= 6 {
        1
    } else {
        2
    }
}

/// The half of the year of a day.
pub open spec fn half_around(day: int) -> Span {
    Span::Half(year_of(day), half_of_month(month_of(day)))
}

/// The year of a day.
pub open spec fn year_around(day: int) -> Span {
    Span::Year(year_of(day))
}

/// A message about the text of a period.
pub open spec fn complaint(what: Seq<char>, text: Seq<char>) -> Seq<char> {
    what + text + "'"@
}

/// What the part behind `YYYY-` says.
pub open spec fn parsed_part(text: Seq<char>, year: int, rest: Seq<char>) -> Result<Span, Seq<char>> {
    let raised = uppercase(rest);
    if begins_with(raised, "H"@) {
        match unsigned_value(raised.skip("H"@.len() as int), 255) {
            Some(half) => if 1 <= half <= 2 {
                Ok(Span::Half(year, half))
            } else {
                Err(complaint("bad half '"@, text))
            },
            None => Err(complaint("bad half '"@, text)),
        }
    } else if begins_with(raised, "Q"@) {
        match unsigned_value(raised.skip("Q"@.len() as int), 255) {
            Some(quarter) => if 1 <= quarter <= 4 {
                Ok(Span::Quarter(year, quarter))
            } else {
                Err(complaint("bad quarter '"@, text))
            },
            None => Err(complaint("bad quarter '"@, text)),
        }
    } else if begins_with(raised, "W"@) {
        match unsigned_value(raised.skip("W"@.len() as int), 255) {
            Some(week) => Ok(Span::Week(year, week)),
            None => Err(complaint("bad week '"@, text)),
        }
    } else if begins_with(raised, "M"@) {
        match unsigned_value(raised.skip("M"@.len() as int), 255) {
            Some(month) => Ok(Span::Month(year, month)),
            None => Err(complaint("bad month '"@, text)),
        }
    } else {
        match unsigned_value(rest, 255) {
            Some(month) => if 1 <= month <= 12 {
                Ok(Span::Month(year, month))
            } else {
                Err(complaint("bad month '"@, text))
            },
            None => Err(complaint("bad period '"@, text)),
        }
    }
}

/// What an absolute form says: `YYYY` or `YYYY-` and a part.
pub open spec fn parsed_absolute(text: Seq<char>) -> Result<Span, Seq<char>> {
    match split_at_first(text, '-') {
        Some((year_text, rest)) => match signed_value(
            year_text,
            i32::MIN as int,
            i32::MAX as int,
        ) {
            Some(year) => parsed_part(text, year, rest),
            None => Err(complaint("bad period '"@, text)),
        },
        None => match signed_value(text, i32::MIN as int, i32::MAX as int) {
            Some(year) => Ok(Span::Year(year)),
            None => Err(complaint("bad period '"@, text)),
        },
    }
}

/// What a trimmed text says, given its lower-case form and the reference day.
pub open spec fn parsed_trimmed(text: Seq<char>, lowered: Seq<char>, reference: int) -> Result<
    Span,
    Seq<char>,
> {
    if lowered == "this-week"@ {
        Ok(week_around(reference))
    } else if lowered == "this-month"@ {
        Ok(month_around(reference))
    } else if lowered == "this-quarter"@ {
        Ok(quarter_around(reference))
    } else if lowered == "this-year"@ {
        Ok(year_around(reference))
    } else if lowered == "previous-week"@ {
        Ok(span_before(week_around(reference)))
    } else if lowered == "previous-month"@ {
        Ok(span_before(month_around(reference)))
    } else if lowered == "previous-quarter"@ {
        Ok(span_before(quarter_around(reference)))
    } else if lowered == "previous-year"@ {
        Ok(span_before(year_around(reference)))
    } else if begins_with(lowered, "last-"@) {
        match unsigned_value(lowered.skip("last-"@.len() as int), u32::MAX as int) {
            Some(days) => Ok(Span::Rolling(days, reference)),
            None => Err(complaint("bad rolling period '"@, text)),
        }
    } else {
        parsed_absolute(text)
    }
}

/// What the text of a period says on a reference day: the period, or the
/// message that refuses it.
pub open spec fn parsed_period(text: Seq<char>, reference: int) -> Result<Span, Seq<char>> {
    parsed_trimmed(trimmed(text), lowercase(trimmed(text)), reference)
}

/// The text in lower case, letter by letter, as far as it is ASCII.
pub open spec fn lowered_ascii(text: Seq<char>) -> Seq<char> {
    text.map_values(|c: char| ascii_lower(c))
}

/// The outcome of a parse is the given one.
pub open spec fn period_is(outcome: Result<Period, Error>, parsed: Result<Span, Seq<char>>) -> bool {
    match parsed {
        Ok(span) => outcome is Ok && outcome->Ok_0@ == span,
        Err(message) => outcome is Err && is_invalid(outcome->Err_0, message),
    }
}

/// The text asks for the week before the first one of the calendar, which has no
/// year to be counted in.
pub open spec fn lacks_week(text: Seq<char>, reference: int) -> bool {
    lowercase(trimmed(text)) == "previous-week"@ && is_iso_week(reference, MIN_YEAR as int, 1)
}

/// What a text says on a reference day was read, whatever the case of its
/// letters and the white space around it; a canonical key was read back.
pub open spec fn reads_period(outcome: Result<Period, Error>, text: Seq<char>, reference: int) -> bool {
    &&& period_is(outcome, parsed_period(text, reference))
    &&& is_ascii_text(trimmed(text)) ==> period_is(
        outcome,
        parsed_trimmed(trimmed(text), lowered_ascii(trimmed(text)), reference),
    )
    &&& reads_back(outcome, text, reference)
}

/// A canonical key was read back: that of a year, half, quarter, month or week
/// as that period, and that of a rolling window as the window of as many days
/// that ends on the reference day.
pub open spec fn reads_back(outcome: Result<Period, Error>, text: Seq<char>, reference: int) -> bool {
    &&& forall|span: Span|
        is_named(span) && #[trigger] span_key(span) == text ==> outcome is Ok && outcome->Ok_0@
            == span
    &&& forall|days: int|
        0 <= days <= u32::MAX && #[trigger] span_key(Span::Rolling(days, reference)) == text
            ==> outcome is Ok && outcome->Ok_0@ == Span::Rolling(days, reference)
}

/// The column of the date dimension that holds the keys of a period's kind.
pub open spec fn span_column(span: Span) -> Seq<char> {
    match span {
        Span::Year(_) => "year_key"@,
        Span::Half(_, _) => "half_key"@,
        Span::Quarter(_, _) => "quarter_key"@,
        Span::Month(_, _) => "month_key"@,
        Span::Week(_, _) => "week_key"@,
        Span::Rolling(_, _) => "date_key"@,
    }
}

/// The column of the date dimension that a key is found in.
pub open spec fn key_column(key: Seq<char>) -> Seq<char> {
    if has_text(key, "-Q"@) {
        "quarter_key"@
    } else if has_text(key, "-W"@) {
        "week_key"@
    } else if has_text(key, "-H"@) {
        "half_key"@
    } else if key.contains('-') {
        "month_key"@
    } else {
        "year_key"@
    }
}

/// The number of days of a period that lie on or before the reference day.
pub open spec fn elapsed(span: Span, reference: int) -> int {
    let last = capped_end(span, reference);
    if last - span_start(span) + 1 >= 0 {
        last - span_start(span) + 1
    } else {
        0
    }
}

/// The last day of a period, capped at the reference day.
pub open spec fn capped_end(span: Span, reference: int) -> int {
    if span_end(span) <= reference {
        span_end(span)
    } else {
        reference
    }
}

/// The reference day lies in the period and is not its last day.
pub open spec fn in_progress(span: Span, reference: int) -> bool {
    !(span is Rolling) && span_start(span) <= reference < span_end(span)
}

// ---------------------------------------------------------------- key round trip

/// A year, half, quarter, month or week whose canonical key names it: the year
/// is not negative and the numbers are in bounds.
pub open spec fn is_named(span: Span) -> bool {
    match span {
        Span::Year(year) => 0 <= year <= i32::MAX,
        Span::Half(year, half) => 0 <= year <= i32::MAX && 1 <= half <= 2,
        Span::Quarter(year, quarter) => 0 <= year <= i32::MAX && 1 <= quarter <= 4,
        Span::Month(year, month) => 0 <= year <= i32::MAX && 1 <= month <= 12,
        Span::Week(year, week) => 0 <= year <= i32::MAX && 0 <= week <= 255,
        Span::Rolling(_, _) => false,
    }
}

/// The year of a period.
pub open spec fn span_year(span: Span) -> int {
    match span {
        Span::Year(year) => year,
        Span::Half(year, _) => year,
        Span::Quarter(year, _) => year,
        Span::Month(year, _) => year,
        Span::Week(year, _) => year,
        Span::Rolling(_, end) => year_of(end),
    }
}

/// What stands behind `YYYY-` in the key of a period.
pub open spec fn key_part(span: Span) -> Seq<char> {
    match span {
        Span::Half(_, half) => seq!['H'] + decimal(half as nat),
        Span::Quarter(_, quarter) => seq!['Q'] + decimal(quarter as nat),
        Span::Month(_, month) => padded(month as nat, 2),
        Span::Week(_, week) => seq!['W'] + padded(week as nat, 2),
        _ => Seq::empty(),
    }
}

/// The part of a key is read back as the period it belongs to.
proof fn lemma_part_reads_back(text: Seq<char>, span: Span)
    requires
        is_named(span),
        !(span is Year),
        uppercase(key_part(span)) == key_part(span).map_values(|c: char| ascii_upper(c)),
    ensures
        parsed_part(text, span_year(span), key_part(span)) == Ok::<Span, Seq<char>>(span),
{
    let part = key_part(span);
    let number: int = match span {
        Span::Half(_, half) => half,
        Span::Quarter(_, quarter) => quarter,
        Span::Month(_, month) => month,
        Span::Week(_, week) => week,
        _ => 0,
    };
    lemma_decimal_reads_back(number as nat);
    lemma_padded_reads_back(number as nat, 2);
    law_numbers_read_back(number as nat, 2, 255);
    reveal_strlit("H");
    reveal_strlit("Q");
    reveal_strlit("W");
    reveal_strlit("M");
    assert forall|i: int| 0 <= i < part.len() implies ascii_upper(#[trigger] part[i]) == part[i] by {
        match span {
            Span::Month(_, _) => {
                assert(is_digit(padded(number as nat, 2)[i]));
            },
            Span::Week(_, _) => {
                if i > 0 {
                    assert(is_digit(padded(number as nat, 2)[i - 1]));
                }
            },
            _ => {
                if i > 0 {
                    assert(is_digit(decimal(number as nat)[i - 1]));
                }
            },
        }
    }
    let raised = uppercase(part);
    assert(raised =~= part);
    let letter = raised[0];
    assert(begins_with(raised, "H"@) <==> letter == 'H') by {
        if letter == 'H' {
            assert(raised.take(1) =~= "H"@);
        } else {
            assert(raised.take(1)[0] != "H"@[0]);
        }
    }
    assert(begins_with(raised, "Q"@) <==> letter == 'Q') by {
        if letter == 'Q' {
            assert(raised.take(1) =~= "Q"@);
        } else {
            assert(raised.take(1)[0] != "Q"@[0]);
        }
    }
    assert(begins_with(raised, "W"@) <==> letter == 'W') by {
        if letter == 'W' {
            assert(raised.take(1) =~= "W"@);
        } else {
            assert(raised.take(1)[0] != "W"@[0]);
        }
    }
    assert(begins_with(raised, "M"@) <==> letter == 'M') by {
        if letter != 'M' {
            assert(raised.take(1)[0] != "M"@[0]);
        } else {
            assert(raised.take(1) =~= "M"@);
        }
    }
    match span {
        Span::Half(_, _) => {
            assert(raised.skip(1) =~= decimal(number as nat));
        },
        Span::Quarter(_, _) => {
            assert(raised.skip(1) =~= decimal(number as nat));
        },
        Span::Week(_, _) => {
            assert(raised.skip(1) =~= padded(number as nat, 2));
        },
        _ => {
            assert(is_digit(padded(number as nat, 2)[0]));
        },
    }
}

/// The part of a key is ASCII text.
proof fn lemma_part_is_ascii(span: Span)
    requires
        is_named(span),
    ensures
        is_ascii_text(key_part(span)),
{
    let part = key_part(span);
    assert forall|i: int| 0 <= i < part.len() implies (#[trigger] part[i] as int) < 128 by {
        match span {
            Span::Half(_, half) => {
                lemma_decimal_reads_back(half as nat);
                if i > 0 {
                    assert(is_digit(decimal(half as nat)[i - 1]));
                }
            },
            Span::Quarter(_, quarter) => {
                lemma_decimal_reads_back(quarter as nat);
                if i > 0 {
                    assert(is_digit(decimal(quarter as nat)[i - 1]));
                }
            },
            Span::Week(_, week) => {
                lemma_padded_reads_back(week as nat, 2);
                if i > 0 {
                    assert(is_digit(padded(week as nat, 2)[i - 1]));
                }
            },
            Span::Month(_, month) => {
                lemma_padded_reads_back(month as nat, 2);
                assert(is_digit(padded(month as nat, 2)[i]));
            },
            _ => {},
        }
    }
}

/// A key that is not just a year falls apart at its first hyphen.
proof fn lemma_key_splits(span: Span)
    requires
        is_named(span),
    ensures
        span_key(span).len() > 0,
        is_digit(span_key(span)[0]),
        is_digit(span_key(span).last()),
        is_ascii_text(span_key(span)),
        span is Year ==> split_at_first(span_key(span), '-') is None,
        !(span is Year) ==> split_at_first(span_key(span), '-') == Some(
            (decimal(span_year(span) as nat), key_part(span)),
        ),
{
    let key = span_key(span);
    let year = decimal(span_year(span) as nat);
    lemma_decimal_reads_back(span_year(span) as nat);
    lemma_part_is_ascii(span);
    reveal_strlit("-H");
    reveal_strlit("-Q");
    reveal_strlit("-");
    reveal_strlit("-W");
    if span is Year {
        assert(key =~= year);
        assert forall|i: int| 0 <= i < key.len() implies key[i] != '-' && (#[trigger] key[i] as int)
            < 128 by {
            assert(is_digit(year[i]));
        }
        assert(is_digit(year[0]));
        assert(is_digit(year[year.len() - 1]));
    } else {
        let part = key_part(span);
        assert(key =~= year + seq!['-'] + part);
        let at = year.len() as int;
        assert forall|i: int| 0 <= i < at implies #[trigger] key[i] != '-' by {
            assert(is_digit(year[i]));
        }
        assert(key[at] == '-');
        assert(is_first_at(key, '-', at));
        let found = first_index(key, '-');
        assert(is_first_at(key, '-', found));
        assert(found == at);
        assert(key.take(at) =~= year);
        assert(key.skip(at + 1) =~= part);
        assert(is_digit(year[0]));
        assert(is_digit(part[part.len() - 1])) by {
            match span {
                Span::Half(_, half) => {
                    lemma_decimal_reads_back(half as nat);
                    let digits = decimal(half as nat);
                    assert(is_digit(digits[digits.len() - 1]));
                },
                Span::Quarter(_, quarter) => {
                    lemma_decimal_reads_back(quarter as nat);
                    let digits = decimal(quarter as nat);
                    assert(is_digit(digits[digits.len() - 1]));
                },
                Span::Week(_, week) => {
                    lemma_padded_reads_back(week as nat, 2);
                    let digits = padded(week as nat, 2);
                    assert(is_digit(digits[digits.len() - 1]));
                },
                Span::Month(_, month) => {
                    lemma_padded_reads_back(month as nat, 2);
                    let digits = padded(month as nat, 2);
                    assert(is_digit(digits[digits.len() - 1]));
                },
                _ => {},
            }
        }
        assert(part.len() > 0);
        assert(key.last() == part[part.len() - 1]);
        assert forall|i: int| 0 <= i < key.len() implies (#[trigger] key[i] as int) < 128 by {
            if i < at {
                assert(is_digit(year[i]));
            } else if i > at {
                assert(key[i] == part[i - at - 1]);
            }
        }
    }
}

/// The lower-case text is one of the relative forms.
pub open spec fn is_relative(lowered: Seq<char>) -> bool {
    ||| lowered == "this-week"@
    ||| lowered == "this-month"@
    ||| lowered == "this-quarter"@
    ||| lowered == "this-year"@
    ||| lowered == "previous-week"@
    ||| lowered == "previous-month"@
    ||| lowered == "previous-quarter"@
    ||| lowered == "previous-year"@
    ||| begins_with(lowered, "last-"@)
}

/// The text of a key is none of the relative forms.
proof fn lemma_key_is_absolute(span: Span, lowered: Seq<char>)
    requires
        is_named(span),
        lowered == span_key(span).map_values(|c: char| ascii_lower(c)),
    ensures
        trimmed(span_key(span)) == span_key(span),
        !is_relative(lowered),
{
    lemma_key_splits(span);
    let first = span_key(span)[0];
    assert(lowered[0] == ascii_lower(first));
    reveal_strlit("this-week");
    reveal_strlit("this-month");
    reveal_strlit("this-quarter");
    reveal_strlit("this-year");
    reveal_strlit("previous-week");
    reveal_strlit("previous-month");
    reveal_strlit("previous-quarter");
    reveal_strlit("previous-year");
    reveal_strlit("last-");
    if begins_with(lowered, "last-"@) {
        assert(lowered.take(5)[0] == "last-"@[0]);
    }
}

/// The key of a rolling window is lower-case ASCII text without white space
/// around it, and says the number of its days.
proof fn lemma_rolling_key(days: int, reference: int)
    requires
        0 <= days <= u32::MAX,
    ensures
        ({
            let key = span_key(Span::Rolling(days, reference));
            &&& is_ascii_text(key)
            &&& trimmed(key) == key
            &&& lowered_ascii(key) == key
            &&& parsed_trimmed(key, key, reference) == Ok::<Span, Seq<char>>(
                Span::Rolling(days, reference),
            )
        }),
{
    let key = span_key(Span::Rolling(days, reference));
    let number = decimal(days as nat);
    lemma_decimal_reads_back(days as nat);
    law_numbers_read_back(days as nat, 1, u32::MAX as int);
    reveal_strlit("this-week");
    reveal_strlit("this-month");
    reveal_strlit("this-quarter");
    reveal_strlit("this-year");
    reveal_strlit("previous-week");
    reveal_strlit("previous-month");
    reveal_strlit("previous-quarter");
    reveal_strlit("previous-year");
    reveal_strlit("last-");
    assert forall|i: int| 0 <= i < key.len() implies (#[trigger] key[i] as int) < 128
        && ascii_lower(key[i]) == key[i] by {
        if i >= 5 {
            assert(is_digit(number[i - 5]));
        }
    }
    assert(lowered_ascii(key) =~= key);
    assert(key[0] == 'l');
    assert(key.last() == number[number.len() - 1]);
    assert(is_digit(number[number.len() - 1]));
    assert(key.take(5) =~= "last-"@);
    assert(key.skip(5) =~= number);
}

// ---------------------------------------------------------------- code

/// An invalid-argument error about the text of a period.
fn refuse(what: &str, text: &str) -> (error: Error)
    ensures
        is_invalid(error, complaint(what@, text@)),
{
    Error::InvalidArgument(join3(what, text, "'"))
}

/// The last day of a month.
fn last_day_of_month(year: i32, month: u32) -> (date: Date)
    requires
        1 <= month <= 12,
        year_fits(year as int, month == 12),
    ensures
        date@ == month_end(year as int, month as int),
{
    let next = if month == 12 {
        Date::first_of(year + 1, 1)
    } else {
        Date::first_of(year, month + 1)
    };
    proof {
        lemma_calendar_bounds();
        use_type_invariant(&next);
        lemma_day_in_year(year as int, month as int, 1);
        lemma_month_length(year as int, month as int);
        lemma_year_length(year as int);
        lemma_years_follow(MIN_YEAR as int, year as int);
    }
    next.plus_days(-1)
}

/// Read the part behind `YYYY-`.
fn parse_part(text: &str, year: i32, rest: &str) -> (outcome: Result<Period, Error>)
    ensures
        period_is(outcome, parsed_part(text@, year as int, rest@)),
        forall|span: Span|
            is_named(span) && !(span is Year) && span_year(span) == year && #[trigger] key_part(
                span,
            ) == rest@ ==> parsed_part(text@, year as int, rest@) == Ok::<Span, Seq<char>>(span),
{
    let raised = upper(rest);
    proof {
        assert forall|span: Span|
            is_named(span) && !(span is Year) && span_year(span) == year && #[trigger] key_part(
                span,
            ) == rest@ implies parsed_part(text@, year as int, rest@) == Ok::<Span, Seq<char>>(
            span,
        ) by {
            lemma_part_is_ascii(span);
            lemma_part_reads_back(text@, span);
        }
    }
    if let Some(half_text) = strip_prefix(&raised, "H") {
        return match parse_unsigned(&half_text, 255) {
            Some(half) => if 1 <= half && half <= 2 {
                Ok(Period::Half(year, half as u8))
            } else {
                Err(refuse("bad half '", text))
            },
            None => Err(refuse("bad half '", text)),
        };
    }
    if let Some(quarter_text) = strip_prefix(&raised, "Q") {
        return match parse_unsigned(&quarter_text, 255) {
            Some(quarter) => if 1 <= quarter && quarter <= 4 {
                Ok(Period::Quarter(year, quarter as u8))
            } else {
                Err(refuse("bad quarter '", text))
            },
            None => Err(refuse("bad quarter '", text)),
        };
    }
    if let Some(week_text) = strip_prefix(&raised, "W") {
        return match parse_unsigned(&week_text, 255) {
            Some(week) => Ok(Period::Week(year, week as u8)),
            None => Err(refuse("bad week '", text)),
        };
    }
    if let Some(month_text) = strip_prefix(&raised, "M") {
        return match parse_unsigned(&month_text, 255) {
            Some(month) => Ok(Period::Month(year, month as u8)),
            None => Err(refuse("bad month '", text)),
        };
    }
    match parse_unsigned(rest, 255) {
        Some(month) => if 1 <= month && month <= 12 {
            Ok(Period::Month(year, month as u8))
        } else {
            Err(refuse("bad month '", text))
        },
        None => Err(refuse("bad period '", text)),
    }
}

/// Read an absolute form.
fn parse_absolute(text: &str) -> (outcome: Result<Period, Error>)
    ensures
        period_is(outcome, parsed_absolute(text@)),
        forall|span: Span|
            is_named(span) && #[trigger] span_key(span) == text@ ==> parsed_absolute(text@) == Ok::<
                Span,
                Seq<char>,
            >(span),
{
    proof {
        assert forall|span: Span| is_named(span) && #[trigger] span_key(span) == text@ implies {
            &&& signed_value(decimal(span_year(span) as nat), i32::MIN as int, i32::MAX as int)
                == Some(span_year(span))
            &&& span is Year ==> split_at_first(text@, '-') is None && text@ == decimal(
                span_year(span) as nat,
            )
            &&& !(span is Year) ==> split_at_first(text@, '-') == Some(
                (decimal(span_year(span) as nat), key_part(span)),
            )
        } by {
            lemma_key_splits(span);
            law_integers_read_back(span_year(span), i32::MIN as int, i32::MAX as int);
        }
    }
    match split_once(text, '-') {
        Some((year_text, rest)) => match parse_signed(&year_text, i32::MIN as i64, i32::MAX as i64) {
            Some(year) => parse_part(text, year as i32, &rest),
            None => Err(refuse("bad period '", text)),
        },
        None => match parse_signed(text, i32::MIN as i64, i32::MAX as i64) {
            Some(year) => Ok(Period::Year(year as i32)),
            None => Err(refuse("bad period '", text)),
        },
    }
}

impl Period {
    /// Canonical key string: `2026`, `2026-H1`, `2026-Q1`, `2026-01`,
    /// `2026-W02`, `last-30`.
    pub fn to_key(&self) -> (key: String)
        ensures
            key@ == span_key(self@),
    {
        let mut key = String::new();
        match self {
            Period::Year(year) => {
                push_signed(&mut key, *year as i64);
                assert(key@ =~= signed_decimal(*year as int));
            },
            Period::Half(year, half) => {
                push_signed(&mut key, *year as i64);
                key.append("-H");
                push_decimal(&mut key, *half as u64);
                assert(key@ =~= span_key(self@));
            },
            Period::Quarter(year, quarter) => {
                push_signed(&mut key, *year as i64);
                key.append("-Q");
                push_decimal(&mut key, *quarter as u64);
                assert(key@ =~= span_key(self@));
            },
            Period::Month(year, month) => {
                push_signed(&mut key, *year as i64);
                key.append("-");
                push_two(&mut key, *month as u64);
                assert(key@ =~= span_key(self@));
            },
            Period::Week(year, week) => {
                push_signed(&mut key, *year as i64);
                key.append("-W");
                push_two(&mut key, *week as u64);
                assert(key@ =~= span_key(self@));
            },
            Period::Rolling(days, _) => {
                key.append("last-");
                push_decimal(&mut key, *days as u64);
                assert(key@ =~= span_key(self@));
            },
        }
        key
    }

    /// Parse `2026`, `2026-H1`, `2026-Q1`, `2026-01`, `2026-M1`, `2026-W02`,
    /// `last-N`, `this-*` and `previous-*`, the relative forms on a reference
    /// date. The first ISO week of the calendar has no week before it: there
    /// `previous-week` is left out.
    ///
    /// White space around the text and the case of its letters make no
    /// difference to the relative forms. A canonical key is read back as its
    /// period.
    pub fn parse_with_reference(text: &str, reference: Date) -> (outcome: Result<Period, Error>)
        requires
            !lacks_week(text@, reference@),
        ensures
            reads_period(outcome, text@, reference@),
    {
        let ghost whole = text@;
        let text = trim(text);
        let lowered = lower(&text);
        proof {
            assert forall|span: Span| is_named(span) && #[trigger] span_key(span) == whole implies {
                &&& text@ == whole
                &&& !is_relative(lowered@)
            } by {
                lemma_key_splits(span);
                lemma_key_is_absolute(span, lowered_ascii(whole));
            }
            assert forall|days: int|
                0 <= days <= u32::MAX && #[trigger] span_key(Span::Rolling(days, reference@))
                    == whole implies parsed_trimmed(text@, lowered@, reference@) == Ok::<
                Span,
                Seq<char>,
            >(Span::Rolling(days, reference@)) by {
                lemma_rolling_key(days, reference@);
            }
        }
        let civil = reference.civil();
        let week = reference.iso_week();
        let this_week = Period::Week(week.0, week.1 as u8);
        let this_month = Period::Month(civil.0, civil.1 as u8);
        let this_quarter = Period::Quarter(civil.0, ((civil.1 - 1) / 3 + 1) as u8);
        let this_year = Period::Year(civil.0);
        proof {
            assert(this_week@ == week_around(reference@));
            assert(this_month@ == month_around(reference@));
            assert(this_quarter@ == quarter_around(reference@));
        }
        if same(&lowered, "this-week") {
            return Ok(this_week);
        }
        if same(&lowered, "this-month") {
            return Ok(this_month);
        }
        if same(&lowered, "this-quarter") {
            return Ok(this_quarter);
        }
        if same(&lowered, "this-year") {
            return Ok(this_year);
        }
        if same(&lowered, "previous-week") {
            proof {
                if week.1 == 1 && week.0 < MIN_YEAR {
                    lemma_calendar_bounds();
                    use_type_invariant(&reference);
                    lemma_iso_year(MIN_YEAR - 1);
                    lemma_year_length(MIN_YEAR - 1);
                }
                if week.1 == 1 && week.0 > MAX_YEAR {
                    lemma_iso_year(MAX_YEAR as int);
                }
            }
            return Ok(this_week.previous());
        }
        if same(&lowered, "previous-month") {
            return Ok(this_month.previous());
        }
        if same(&lowered, "previous-quarter") {
            return Ok(this_quarter.previous());
        }
        if same(&lowered, "previous-year") {
            return Ok(this_year.previous());
        }
        if let Some(days_text) = strip_prefix(&lowered, "last-") {
            return match parse_unsigned(&days_text, u32::MAX as u64) {
                Some(days) => Ok(Period::Rolling(days as u32, reference)),
                None => Err(refuse("bad rolling period '", &text)),
            };
        }
        parse_absolute(&text)
    }

    /// Parse on any reference date: nothing where the text asks for the week
    /// before the first one of the calendar.
    pub fn parse_in_calendar(text: &str, reference: Date) -> (parsed: Option<
        Result<Period, Error>,
    >)
        ensures
            match parsed {
                Some(outcome) => !lacks_week(text@, reference@) && reads_period(
                    outcome,
                    text@,
                    reference@,
                ),
                None => lacks_week(text@, reference@),
            },
    {
        if same(&lower(&trim(text)), "previous-week") {
            let week = reference.iso_week();
            proof {
                if is_iso_week(reference@, MIN_YEAR as int, 1) {
                    lemma_iso_week_unique(reference@, MIN_YEAR as int, 1);
                }
                lemma_iso_week_unique(reference@, week.0 as int, week.1 as int);
            }
            if week.0 == MIN_YEAR && week.1 == 1 {
                return None;
            }
        }
        Some(Period::parse_with_reference(text, reference))
    }

    /// Parse against a specific instant as seen in `timezone`.
    ///
    /// The injectable form: pass the instant rather than reading a clock so
    /// relative-period resolution is deterministic. The instant has to lie a
    /// few days inside the calendar, so that its local date has a week before.
    pub fn parse_as_of(text: &str, instant: &Instant, timezone: &Timezone) -> (outcome: Result<
        Period,
        Error,
    >)
        requires
            has_local_date(instant@),
            MIN_DAY + 5 <= utc_day(instant@.seconds),
        ensures
            reads_period(outcome, text@, local_day(timezone@, instant@)),
    {
        let reference = local_date_for(instant, timezone);
        proof {
            lemma_calendar_bounds();
        }
        Period::parse_with_reference(text, reference)
    }

    /// Can both ends of the period be written as dates?
    pub fn has_dates(&self) -> (yes: bool)
        ensures
            yes == has_range(self@),
    {
        match self {
            Period::Year(year) => MIN_YEAR <= *year && *year <= MAX_YEAR,
            Period::Half(year, half) => MIN_YEAR <= *year && *year <= MAX_YEAR && (*half == 1
                || *year < MAX_YEAR),
            Period::Quarter(year, quarter) => MIN_YEAR <= *year && *year <= MAX_YEAR && 1
                <= *quarter && *quarter <= 4 && (*quarter != 4 || *year < MAX_YEAR),
            Period::Month(year, month) => MIN_YEAR <= *year && *year <= MAX_YEAR && 1 <= *month
                && *month <= 12 && (*month != 12 || *year < MAX_YEAR),
            Period::Week(year, week) => {
                if *year < MIN_YEAR || *year > MAX_YEAR {
                    return false;
                }
                let start = match Date::from_isoywd_opt(*year, *week as u32) {
                    Some(monday) => monday,
                    None => Date::first_of(*year, 1),
                };
                proof {
                    use_type_invariant(&start);
                }
                match start.checked_plus_days(6) {
                    Some(end) => {
                        proof {
                            use_type_invariant(&end);
                        }
                        true
                    },
                    None => false,
                }
            },
            Period::Rolling(days, end) => match end.checked_plus_days(1 - *days as i64) {
                Some(start) => {
                    proof {
                        use_type_invariant(&start);
                    }
                    true
                },
                None => false,
            },
        }
    }

    /// Is there a period before this one?
    pub fn has_previous(&self) -> (yes: bool)
        ensures
            yes == has_before(self@),
    {
        match self {
            Period::Year(year) => *year > i32::MIN,
            Period::Half(year, half) => *half != 1 || *year > i32::MIN,
            Period::Quarter(year, quarter) => *quarter >= 1 && (*quarter != 1 || *year > i32::MIN),
            Period::Month(year, month) => *month >= 1 && (*month != 1 || *year > i32::MIN),
            Period::Week(year, week) => *week > 1 || (*year > MIN_YEAR && *year - 1 <= MAX_YEAR),
            Period::Rolling(days, end) => match end.checked_plus_days(-(*days as i64)) {
                Some(before) => {
                    proof {
                        use_type_invariant(&before);
                    }
                    true
                },
                None => false,
            },
        }
    }

    /// Inclusive `(start, end)` dates of the period.
    pub fn date_range(&self) -> (range: (Date, Date))
        requires
            has_range(self@),
        ensures
            range.0@ == span_start(self@),
            range.1@ == span_end(self@),
    {
        match self {
            Period::Year(year) => {
                let start = Date::first_of(*year, 1);
                let end = last_of_year(*year);
                (start, end)
            },
            Period::Half(year, half) => if *half == 1 {
                (Date::first_of(*year, 1), last_day_of_month(*year, 6))
            } else {
                (Date::first_of(*year, 7), last_day_of_month(*year, 12))
            },
            Period::Quarter(year, quarter) => {
                let start_month: u32 = (*quarter as u32 - 1) * 3 + 1;
                (Date::first_of(*year, start_month), last_day_of_month(*year, start_month + 2))
            },
            Period::Month(year, month) => (
                Date::first_of(*year, *month as u32),
                last_day_of_month(*year, *month as u32),
            ),
            Period::Week(year, week) => {
                let start = match Date::from_isoywd_opt(*year, *week as u32) {
                    Some(monday) => monday,
                    None => Date::first_of(*year, 1),
                };
                proof {
                    use_type_invariant(&start);
                }
                (start, start.plus_days(6))
            },
            Period::Rolling(days, end) => (end.plus_days(1 - *days as i64), *end),
        }
    }

    /// The immediately preceding period of the same granularity.
    pub fn previous(&self) -> (before: Period)
        requires
            has_before(self@),
        ensures
            before@ == span_before(self@),
    {
        match self {
            Period::Year(year) => Period::Year(*year - 1),
            Period::Half(year, half) => if *half == 1 {
                Period::Half(*year - 1, 2)
            } else {
                Period::Half(*year, 1)
            },
            Period::Quarter(year, quarter) => if *quarter == 1 {
                Period::Quarter(*year - 1, 4)
            } else {
                Period::Quarter(*year, *quarter - 1)
            },
            Period::Month(year, month) => if *month == 1 {
                Period::Month(*year - 1, 12)
            } else {
                Period::Month(*year, *month - 1)
            },
            Period::Week(year, week) => if *week <= 1 {
                let late_december = match Date::from_ymd_opt(*year - 1, 12, 28) {
                    Some(date) => date,
                    None => Date::first_of(1, 1),
                };
                let last = late_december.iso_week();
                proof {
                    lemma_december_28(*year - 1, last.0 as int, last.1 as int);
                }
                Period::Week(*year - 1, last.1 as u8)
            } else {
                Period::Week(*year, *week - 1)
            },
            Period::Rolling(days, end) => Period::Rolling(*days, end.plus_days(-(*days as i64))),
        }
    }

    /// Which `dim_date` column equality-filters this period.
    pub fn date_column(&self) -> (column: &'static str)
        ensures
            column@ == span_column(self@),
    {
        match self {
            Period::Year(_) => "year_key",
            Period::Half(_, _) => "half_key",
            Period::Quarter(_, _) => "quarter_key",
            Period::Month(_, _) => "month_key",
            Period::Week(_, _) => "week_key",
            Period::Rolling(_, _) => "date_key",
        }
    }

    /// The positional column for apples-to-apples truncation of the
    /// previous period. None for Rolling (always complete).
    pub fn position_column(&self) -> (column: Option<&'static str>)
        ensures
            crate::text::opt_str(column) == (match self@ {
                Span::Year(_) => Some("day_of_year"@),
                Span::Half(_, _) => Some("day_of_half"@),
                Span::Quarter(_, _) => Some("day_of_quarter"@),
                Span::Month(_, _) => Some("day_of_month"@),
                Span::Week(_, _) => Some("day_of_week"@),
                Span::Rolling(_, _) => None,
            }),
    {
        match self {
            Period::Year(_) => Some("day_of_year"),
            Period::Half(_, _) => Some("day_of_half"),
            Period::Quarter(_, _) => Some("day_of_quarter"),
            Period::Month(_, _) => Some("day_of_month"),
            Period::Week(_, _) => Some("day_of_week"),
            Period::Rolling(_, _) => None,
        }
    }

    /// Days elapsed within the period as of a reference date.
    pub fn days_elapsed(&self, reference: Date) -> (days: i64)
        requires
            has_range(self@),
        ensures
            days == elapsed(self@, reference@),
    {
        let (start, end) = self.date_range();
        let effective = reference.earlier(&end);
        let since: i64 = effective.days_since(&start);
        proof {
            use_type_invariant(&start);
            use_type_invariant(&effective);
        }
        if since + 1 > 0 {
            since + 1
        } else {
            0
        }
    }

    /// Is the period still in progress at the reference date?
    pub fn is_partial(&self, reference: Date) -> (yes: bool)
        requires
            self@ is Rolling || has_range(self@),
        ensures
            yes == in_progress(self@, reference@),
    {
        match self {
            Period::Rolling(_, _) => false,
            _ => {
                let (start, end) = self.date_range();
                !reference.is_before(&start) && reference.is_before(&end)
            },
        }
    }

    /// The period's end capped at the reference date.
    pub fn effective_end_date(&self, reference: Date) -> (end: Date)
        requires
            has_range(self@),
        ensures
            end@ == capped_end(self@, reference@),
    {
        let (_, end) = self.date_range();
        end.earlier(&reference)
    }

    /// Pick the dim_date column for an arbitrary period key string.
    pub fn column_for_key(key: &str) -> (column: &'static str)
        ensures
            column@ == key_column(key@),
    {
        if contains(key, "-Q") {
            "quarter_key"
        } else if contains(key, "-W") {
            "week_key"
        } else if contains(key, "-H") {
            "half_key"
        } else if contains_char(key, '-') {
            "month_key"
        } else {
            "year_key"
        }
    }
}

/// December 31 of a year.
fn last_of_year(year: i32) -> (date: Date)
    requires
        year_fits(year as int, false),
    ensures
        date@ == day_number(year as int, 12, 31),
{
    match Date::from_ymd_opt(year, 12, 31) {
        Some(date) => date,
        None => Date::first_of(year, 12),
    }
}

// ---------------------------------------------------------------- laws

/// The numbers of the period name a year, half, quarter, month or ISO week
/// that exists, or a window of days.
pub open spec fn is_regular(span: Span) -> bool {
    match span {
        Span::Year(_) => true,
        Span::Half(_, half) => 1 <= half <= 2,
        Span::Quarter(_, quarter) => 1 <= quarter <= 4,
        Span::Month(_, month) => 1 <= month <= 12,
        Span::Week(year, week) => 1 <= week <= weeks_in_year(year) && in_calendar(
            week_monday(year, week),
        ),
        Span::Rolling(days, _) => days >= 0,
    }
}

/// A period and the one before it meet: the earlier one ends on the day before
/// the later one starts.
pub proof fn law_previous_ends_where_the_period_starts(span: Span)
    requires
        is_regular(span),
        is_regular(span_before(span)),
    ensures
        span_end(span_before(span)) + 1 == span_start(span),
{
    match span {
        Span::Year(year) => {
            lemma_year_length(year - 1);
        },
        Span::Half(year, half) => {},
        Span::Quarter(year, quarter) => {},
        Span::Month(year, month) => {},
        Span::Week(year, week) => {
            lemma_iso_year(year - 1);
        },
        Span::Rolling(_, _) => {},
    }
}

/// The period before a period has the same granularity, and going back never
/// leaves the regular periods (a week's Monday has to be in the calendar).
pub proof fn law_previous_is_regular(span: Span)
    requires
        is_regular(span),
        span matches Span::Week(_, _) ==> in_calendar(span_start(span) - 7),
    ensures
        is_regular(span_before(span)),
        span is Year ==> span_before(span) is Year,
        span is Half ==> span_before(span) is Half,
        span is Quarter ==> span_before(span) is Quarter,
        span is Month ==> span_before(span) is Month,
        span is Week ==> span_before(span) is Week,
        span is Rolling ==> span_before(span) is Rolling && span_before(span)->Rolling_0
            == span->Rolling_0,
{
    if let Span::Week(year, week) = span {
        lemma_iso_year(year - 1);
        lemma_iso_year(year);
    }
}

/// White space around the text of a period makes no difference.
pub proof fn law_white_space_around_a_period_makes_no_difference(
    before: Seq<char>,
    text: Seq<char>,
    behind: Seq<char>,
    reference: int,
)
    requires
        is_blank_text(before),
        is_blank_text(behind),
    ensures
        parsed_period(before + text + behind, reference) == parsed_period(text, reference),
{
    law_trimming_ignores_surrounding_white_space(before, text, behind);
}

/// Letter case makes no difference to the relative forms: two texts with the
/// same lower-case form name the same period, or are both refused.
pub proof fn law_letter_case_makes_no_difference(
    text: Seq<char>,
    other: Seq<char>,
    lowered: Seq<char>,
    reference: int,
)
    requires
        is_relative(lowered),
    ensures
        match (parsed_trimmed(text, lowered, reference), parsed_trimmed(other, lowered, reference)) {
            (Ok(span), Ok(same)) => span == same,
            (Err(_), Err(_)) => true,
            _ => false,
        },
        lowercase(trimmed(text)) == lowered && lowercase(trimmed(other)) == lowered ==> (
        match (parsed_period(text, reference), parsed_period(other, reference)) {
            (Ok(span), Ok(same)) => span == same,
            (Err(_), Err(_)) => true,
            _ => false,
        }),
{
}

/// The relative forms name the week, month, quarter and year around the
/// reference day, and those before them.
pub proof fn law_relative_forms_go_by_the_reference_day(text: Seq<char>, reference: int)
    ensures
        parsed_trimmed(text, "this-week"@, reference) == Ok::<Span, Seq<char>>(
            week_around(reference),
        ),
        parsed_trimmed(text, "this-month"@, reference) == Ok::<Span, Seq<char>>(
            month_around(reference),
        ),
        parsed_trimmed(text, "this-quarter"@, reference) == Ok::<Span, Seq<char>>(
            quarter_around(reference),
        ),
        parsed_trimmed(text, "this-year"@, reference) == Ok::<Span, Seq<char>>(
            year_around(reference),
        ),
        parsed_trimmed(text, "previous-week"@, reference) == Ok::<Span, Seq<char>>(
            span_before(week_around(reference)),
        ),
        parsed_trimmed(text, "previous-month"@, reference) == Ok::<Span, Seq<char>>(
            span_before(month_around(reference)),
        ),
        parsed_trimmed(text, "previous-quarter"@, reference) == Ok::<Span, Seq<char>>(
            span_before(quarter_around(reference)),
        ),
        parsed_trimmed(text, "previous-year"@, reference) == Ok::<Span, Seq<char>>(
            span_before(year_around(reference)),
        ),
{
    reveal_strlit("this-week");
    reveal_strlit("this-month");
    reveal_strlit("this-quarter");
    reveal_strlit("this-year");
    reveal_strlit("previous-week");
    reveal_strlit("previous-month");
    reveal_strlit("previous-quarter");
    reveal_strlit("previous-year");
    assert("this-week"@.len() == 9 && "this-month"@.len() == 10 && "this-quarter"@.len() == 12);
    assert("previous-week"@.len() == 13 && "previous-month"@.len() == 14);
    assert("this-year"@.len() == 9 && "previous-quarter"@.len() == 16);
    assert("this-week"@[5] != "this-year"@[5]);
    assert("previous-week"@[9] != "previous-year"@[9]);
}

/// The week, month, quarter and year of a day hold that day.
pub proof fn law_current_periods_hold_the_day(day: int, year: int, month: int, of_month: int, iso_year: int, week: int)
    requires
        is_civil(day, year, month, of_month),
        is_iso_week(day, iso_year, week),
        in_calendar(week_monday(iso_year, week)),
    ensures
        span_start(year_around(day)) <= day <= span_end(year_around(day)),
        span_start(quarter_around(day)) <= day <= span_end(quarter_around(day)),
        span_start(month_around(day)) <= day <= span_end(month_around(day)),
        span_start(week_around(day)) <= day <= span_end(week_around(day)),
{
    crate::calendar::lemma_civil_unique(day, year, month, of_month);
    lemma_iso_week_unique(day, iso_year, week);
    lemma_iso_year(iso_year);
    lemma_day_in_year(year, month, of_month);
    lemma_year_length(year);
    lemma_month_length(year, month);
    crate::calendar::lemma_months_follow(year, quarter_month(quarter_of_month(month)), month);
    crate::calendar::lemma_months_follow(year, month, quarter_month(quarter_of_month(month)) + 3);
}

/// The period of the same granularity that a day lies in.
pub open spec fn span_around(span: Span, day: int) -> Span {
    match span {
        Span::Year(_) => year_around(day),
        Span::Half(_, _) => half_around(day),
        Span::Quarter(_, _) => quarter_around(day),
        Span::Month(_, _) => month_around(day),
        Span::Week(_, _) => week_around(day),
        Span::Rolling(_, _) => span,
    }
}

/// A day lies between the first day of a month and the end of a later month of
/// the year exactly when its month lies between the two.
pub proof fn lemma_between_months(day: int, year: int, month: int, of_month: int, wanted: int, from: int, to: int)
    requires
        is_civil(day, year, month, of_month),
        1 <= from <= to <= 12,
    ensures
        day_number(wanted, from, 1) <= day <= month_end(wanted, to) <==> year == wanted && from
            <= month <= to,
{
    lemma_day_in_year(year, month, of_month);
    lemma_day_in_year(wanted, from, 1);
    lemma_year_length(wanted);
    lemma_month_length(wanted, to);
    crate::calendar::lemma_months_follow(wanted, to + 1, 13);
    if year < wanted {
        lemma_years_follow(year + 1, wanted);
    }
    if wanted < year {
        lemma_years_follow(wanted + 1, year);
    }
    if year == wanted {
        lemma_month_length(year, month);
        if month < from {
            crate::calendar::lemma_months_follow(year, month, from);
        } else {
            crate::calendar::lemma_months_follow(year, from, month);
        }
        if month > to {
            crate::calendar::lemma_months_follow(year, to, month);
        } else {
            crate::calendar::lemma_months_follow(year, month, to);
        }
    }
}

/// A period's range holds exactly the days whose own year, half, quarter, month
/// or ISO week is that period. So filtering days by the period's key selects
/// the days of its range.
pub proof fn law_range_holds_exactly_the_days_of_the_period(
    span: Span,
    day: int,
    year: int,
    month: int,
    of_month: int,
    iso_year: int,
    week: int,
)
    requires
        is_regular(span),
        !(span is Rolling),
        is_civil(day, year, month, of_month),
        is_iso_week(day, iso_year, week),
    ensures
        span_start(span) <= day <= span_end(span) <==> span_around(span, day) == span,
{
    crate::calendar::lemma_civil_unique(day, year, month, of_month);
    lemma_iso_week_unique(day, iso_year, week);
    match span {
        Span::Year(wanted) => {
            lemma_year_length(wanted);
            lemma_between_months(day, year, month, of_month, wanted, 1, 12);
        },
        Span::Half(wanted, half) => {
            lemma_between_months(
                day,
                year,
                month,
                of_month,
                wanted,
                if half == 1 {
                    1
                } else {
                    7
                },
                if half == 1 {
                    6
                } else {
                    12
                },
            );
        },
        Span::Quarter(wanted, quarter) => {
            let first = quarter_month(quarter);
            lemma_between_months(day, year, month, of_month, wanted, first, first + 2);
        },
        Span::Month(wanted, of_year) => {
            lemma_between_months(day, year, month, of_month, wanted, of_year, of_year);
        },
        Span::Week(wanted, number) => {
            lemma_iso_year(wanted);
            if span_start(span) <= day <= span_end(span) {
                assert(is_iso_week(day, wanted, number));
                lemma_iso_week_unique(day, wanted, number);
            }
        },
        Span::Rolling(_, _) => {},
    }
}

/// A period in progress is counted up to the reference day itself, and a
/// period that has ended is counted whole.
pub proof fn law_elapsed_days(span: Span, reference: int)
    requires
        span_start(span) <= span_end(span) + 1,
    ensures
        in_progress(span, reference) ==> capped_end(span, reference) == reference && elapsed(
            span,
            reference,
        ) == reference - span_start(span) + 1,
        span_end(span) <= reference ==> capped_end(span, reference) == span_end(span) && elapsed(
            span,
            reference,
        ) == span_end(span) - span_start(span) + 1,
        reference < span_start(span) ==> elapsed(span, reference) == 0,
{
}

/// A mark of two characters does not stand in a text that lacks the second one.
proof fn lemma_no_mark(key: Seq<char>, mark: Seq<char>)
    requires
        mark.len() == 2,
        !key.contains(mark[1]),
    ensures
        !has_text(key, mark),
{
    if has_text(key, mark) {
        let at = choose|at: int| stands_at(key, mark, at);
        assert(key.subrange(at, at + 2)[1] == mark[1]);
        assert(key[at + 1] == mark[1]);
    }
}

/// A signed number holds digits and hyphens alone.
proof fn lemma_signed_characters(n: int)
    ensures
        forall|i: int|
            0 <= i < signed_decimal(n).len() ==> is_digit(#[trigger] signed_decimal(n)[i])
                || signed_decimal(n)[i] == '-',
{
    if n < 0 {
        lemma_decimal_reads_back((-n) as nat);
        assert forall|i: int| 0 <= i < signed_decimal(n).len() implies is_digit(
            #[trigger] signed_decimal(n)[i],
        ) || signed_decimal(n)[i] == '-' by {
            if i > 0 {
                assert(is_digit(decimal((-n) as nat)[i - 1]));
            }
        }
    } else {
        lemma_decimal_reads_back(n as nat);
    }
}

/// The column that a key is found in is the one that holds the keys of its
/// period's kind. A rolling window has no column of its own, and the sign of a
/// year before the first reads like the hyphen of a month.
pub proof fn law_keys_are_found_in_their_column(span: Span)
    requires
        !(span is Rolling),
        span matches Span::Year(year) ==> year >= 0,
    ensures
        key_column(span_key(span)) == span_column(span),
{
    let key = span_key(span);
    reveal_strlit("-Q");
    reveal_strlit("-W");
    reveal_strlit("-H");
    reveal_strlit("-");
    let (year, mark, digits) = match span {
        Span::Half(year, half) => (year, "-H"@, decimal(half as nat)),
        Span::Quarter(year, quarter) => (year, "-Q"@, decimal(quarter as nat)),
        Span::Month(year, month) => (year, "-"@, padded(month as nat, 2)),
        Span::Week(year, week) => (year, "-W"@, padded(week as nat, 2)),
        Span::Year(year) => (year, Seq::empty(), Seq::empty()),
        Span::Rolling(_, _) => (0, Seq::empty(), Seq::empty()),
    };
    let front = signed_decimal(year);
    assert(key =~= front + mark + digits);
    lemma_signed_characters(year);
    match span {
        Span::Half(_, half) => {
            lemma_decimal_reads_back(half as nat);
        },
        Span::Quarter(_, quarter) => {
            lemma_decimal_reads_back(quarter as nat);
        },
        Span::Month(_, month) => {
            lemma_padded_reads_back(month as nat, 2);
        },
        Span::Week(_, week) => {
            lemma_padded_reads_back(week as nat, 2);
        },
        _ => {},
    }
    assert forall|c: char|
        !is_digit(c) && c != '-' && !mark.contains(c) implies !#[trigger] key.contains(c) by {
        if key.contains(c) {
            let i = choose|i: int| 0 <= i < key.len() && key[i] == c;
            if i < front.len() {
                assert(front[i] == c);
            } else if i < front.len() + mark.len() {
                assert(mark[i - front.len()] == c);
            } else {
                assert(digits[i - front.len() - mark.len()] == c);
            }
        }
    }
    assert(mark.len() > 0 ==> key[front.len() as int] == '-');
    assert(mark.len() == 2 ==> stands_at(key, mark, front.len() as int)) by {
        if mark.len() == 2 {
            assert(key.subrange(front.len() as int, front.len() as int + 2) =~= mark);
        }
    }
    if !(span is Quarter) {
        assert(!key.contains('Q'));
        lemma_no_mark(key, "-Q"@);
    }
    if !(span is Week) {
        assert(!key.contains('W'));
        lemma_no_mark(key, "-W"@);
    }
    if !(span is Half) {
        assert(!key.contains('H'));
        lemma_no_mark(key, "-H"@);
    }
    if span is Year {
        lemma_decimal_reads_back(year as nat);
        if key.contains('-') {
            let i = choose|i: int| 0 <= i < key.len() && key[i] == '-';
            assert(is_digit(decimal(year as nat)[i]));
        }
    }
}

/// The periods are of one kind: years, halves, quarters, months or weeks.
pub open spec fn same_kind(left: Span, right: Span) -> bool {
    match (left, right) {
        (Span::Year(_), Span::Year(_)) => true,
        (Span::Half(_, _), Span::Half(_, _)) => true,
        (Span::Quarter(_, _), Span::Quarter(_, _)) => true,
        (Span::Month(_, _), Span::Month(_, _)) => true,
        (Span::Week(_, _), Span::Week(_, _)) => true,
        _ => false,
    }
}

/// The number of a period within its year.
pub open spec fn span_number(span: Span) -> int {
    match span {
        Span::Half(_, half) => half,
        Span::Quarter(_, quarter) => quarter,
        Span::Month(_, month) => month,
        Span::Week(_, week) => week,
        _ => 0,
    }
}

/// Two texts that end in a mark that opens with a hyphen, and digits, agree in
/// their parts where they agree.
proof fn lemma_same_parts(
    front: Seq<char>,
    digits: Seq<char>,
    other_front: Seq<char>,
    other_digits: Seq<char>,
    mark: Seq<char>,
)
    requires
        mark.len() > 0,
        mark[0] == '-',
        forall|i: int| 0 < i < mark.len() ==> mark[i] != '-',
        is_digits(digits),
        is_digits(other_digits),
        front + mark + digits == other_front + mark + other_digits,
    ensures
        front == other_front,
        digits == other_digits,
{
    let left = front + mark + digits;
    let right = other_front + mark + other_digits;
    let at = front.len() as int;
    let other_at = other_front.len() as int;
    assert(left.len() == right.len());
    assert(left[at] == '-');
    assert(right[other_at] == '-');
    assert(left[other_at] == '-');
    assert(right[at] == '-');
    if at < other_at {
        if other_at < at + mark.len() {
            assert(left[other_at] == mark[other_at - at]);
        } else {
            assert(left[other_at] == digits[other_at - at - mark.len()]);
            assert(is_digit(digits[other_at - at - mark.len()]));
        }
    }
    if other_at < at {
        if at < other_at + mark.len() {
            assert(right[at] == mark[at - other_at]);
        } else {
            assert(right[at] == other_digits[at - other_at - mark.len()]);
            assert(is_digit(other_digits[at - other_at - mark.len()]));
        }
    }
    assert(left.take(at) =~= front);
    assert(right.take(at) =~= other_front);
    assert(left.skip(at + mark.len()) =~= digits);
    assert(right.skip(at + mark.len()) =~= other_digits);
}

/// Numbers that are written alike are the same.
proof fn lemma_same_number(left: int, right: int)
    requires
        signed_decimal(left) == signed_decimal(right),
    ensures
        left == right,
{
    let (min, max) = if left <= right {
        (left, right)
    } else {
        (right, left)
    };
    law_integers_read_back(left, min, max);
    law_integers_read_back(right, min, max);
}

/// The keys of two periods of one kind are the same only where the periods are.
pub proof fn law_keys_tell_periods_apart(left: Span, right: Span)
    requires
        same_kind(left, right),
        span_number(left) >= 0,
        span_number(right) >= 0,
    ensures
        span_key(left) == span_key(right) <==> left == right,
{
    reveal_strlit("-Q");
    reveal_strlit("-W");
    reveal_strlit("-H");
    reveal_strlit("-");
    if span_key(left) == span_key(right) {
        let (m, n) = (span_number(left) as nat, span_number(right) as nat);
        lemma_decimal_reads_back(m);
        lemma_decimal_reads_back(n);
        lemma_padded_reads_back(m, 2);
        lemma_padded_reads_back(n, 2);
        let (a, b) = (signed_decimal(span_year(left)), signed_decimal(span_year(right)));
        match left {
            Span::Year(_) => {},
            Span::Half(_, _) => {
                lemma_same_parts(a, decimal(m), b, decimal(n), "-H"@);
            },
            Span::Quarter(_, _) => {
                lemma_same_parts(a, decimal(m), b, decimal(n), "-Q"@);
            },
            Span::Month(_, _) => {
                lemma_same_parts(a, padded(m, 2), b, padded(n, 2), "-"@);
            },
            Span::Week(_, _) => {
                lemma_same_parts(a, padded(m, 2), b, padded(n, 2), "-W"@);
            },
            Span::Rolling(_, _) => {},
        }
        lemma_same_number(span_year(left), span_year(right));
    }
}

} // verus!
