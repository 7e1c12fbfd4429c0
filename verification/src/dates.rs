//! Points in time as calendar dates.
use vstd::prelude::*;
use vstd::string::*;

use crate::text::{decimal, decimal_text, signed_decimal, signed_decimal_text};

verus! {

/// Whether a year of the Gregorian calendar has a leap day.
pub open spec fn is_leap_year(year: int) -> bool {
    year % 4 == 0 && (year % 100 != 0 || year % 400 == 0)
}

/// The number of days of a month.
pub open spec fn days_in_month(year: int, month: int) -> int {
    if month == 2 {
        if is_leap_year(year) {
            29
        } else {
            28
        }
    } else if month == 4 || month == 6 || month == 9 || month == 11 {
        30
    } else {
        31
    }
}

/// The number of days of a year before a month.
pub open spec fn days_before_month(year: int, month: int) -> int
    decreases month,
{
    if month <= 1 {
        0
    } else {
        days_before_month(year, month - 1) + days_in_month(year, month - 1)
    }
}

/// The number of days from the first day of the year 1 to that of another year.
pub open spec fn days_before_year(year: int) -> int {
    365 * (year - 1) + (year - 1) / 4 - (year - 1) / 100 + (year - 1) / 400
}

/// The number of days from the first of January 1970 to another date.
pub open spec fn day_number(year: int, month: int, day: int) -> int {
    days_before_year(year) + days_before_month(year, month) + day - 1 - 719162
}

/// Whether a month has a day.
pub open spec fn is_date(year: int, month: int, day: int) -> bool {
    1 <= month <= 12 && 1 <= day <= days_in_month(year, month)
}

/// Whether a point in time falls in a year of at most four digits.
pub open spec fn has_date(timestamp: int) -> bool {
    -377705116800 <= timestamp <= 253402300799
}

/// `time::OffsetDateTime::from_unix_timestamp` finds the date of a point in time, given in seconds
/// since 1970, in the Gregorian calendar at Greenwich. It refuses what falls in no year from -9999
/// to 9999.
#[verifier::external_body]
pub(crate) fn date_of(timestamp: i64) -> (date: Option<(i32, u8, u8)>)
    ensures
        date is Some == has_date(timestamp as int),
        date matches Some((year, month, day)) ==> is_date(year as int, month as int, day as int)
            && day_number(year as int, month as int, day as int) == timestamp as int / 86400,
{
    let date = time::OffsetDateTime::from_unix_timestamp(timestamp).ok()?;
    Some((date.year(), u8::from(date.month()), date.day()))
}

/// Digits with zeros before them, up to a width.
pub open spec fn zero_padded(digits: Seq<char>, width: int) -> Seq<char>
    decreases width - digits.len(),
{
    if digits.len() >= width {
        digits
    } else {
        zero_padded(seq!['0'] + digits, width)
    }
}

/// A year with at least four characters, of which the first is a sign where it is negative.
pub open spec fn year_text(year: int) -> Seq<char> {
    if year < 0 {
        seq!['-'] + zero_padded(decimal((-year) as nat), 3)
    } else {
        zero_padded(decimal(year as nat), 4)
    }
}

/// A date as year, month and day.
pub open spec fn date_text(year: int, month: int, day: int) -> Seq<char> {
    year_text(year) + seq!['-'] + zero_padded(decimal(month as nat), 2) + seq!['-'] + zero_padded(
        decimal(day as nat),
        2,
    )
}

/// Whether a text is the date of a point in time, or its number where it has none.
pub open spec fn is_timestamp_text(text: Seq<char>, timestamp: int) -> bool {
    if has_date(timestamp) {
        exists|year: int, month: int, day: int|
            is_date(year, month, day) && day_number(year, month, day) == timestamp / 86400 && text
                == #[trigger] date_text(year, month, day)
    } else {
        text == signed_decimal(timestamp)
    }
}

/// The date of a point in time, or its number where it has none.
pub open spec fn timestamp_text(timestamp: int) -> Seq<char> {
    choose|text: Seq<char>| is_timestamp_text(text, timestamp)
}

fn pad_zeros(digits: String, width: usize) -> (text: String)
    ensures
        text@ == zero_padded(digits@, width as int),
{
    let mut text = digits;
    let ghost first = text@;
    let mut count: usize = text.as_str().unicode_len();
    while count < width
        invariant
            count == text@.len(),
            zero_padded(first, width as int) == zero_padded(text@, width as int),
        decreases width - count,
    {
        let mut longer = String::new();
        longer.push('0');
        assert(longer@ =~= seq!['0']);
        longer.append(text.as_str());
        text = longer;
        count = count + 1;
    }
    text
}

/// Writes a date as year, month and day.
pub fn write_date(year: i32, month: u8, day: u8) -> (text: String)
    ensures
        text@ == date_text(year as int, month as int, day as int),
{
    let mut text = if year < 0 {
        let size: u128 = (-(year as i64)) as u128;
        let mut text = String::new();
        text.push('-');
        assert(text@ =~= seq!['-']);
        text.append(pad_zeros(decimal_text(size), 3).as_str());
        text
    } else {
        pad_zeros(decimal_text(year as u128), 4)
    };
    let ghost years = text@;
    text.push('-');
    assert(text@ =~= years + seq!['-']);
    text.append(pad_zeros(decimal_text(month as u128), 2).as_str());
    let ghost months = text@;
    text.push('-');
    assert(text@ =~= months + seq!['-']);
    text.append(pad_zeros(decimal_text(day as u128), 2).as_str());
    text
}

/// Writes the date of a point in time, or its number where it has none.
pub fn format_timestamp(timestamp: i64) -> (text: String)
    ensures
        is_timestamp_text(text@, timestamp as int),
        text@ == timestamp_text(timestamp as int),
{
    let text = match date_of(timestamp) {
        Some((year, month, day)) => {
            let text = write_date(year, month, day);
            assert(text@ == date_text(year as int, month as int, day as int));
            text
        },
        None => signed_decimal_text(timestamp),
    };
    proof {
        law_timestamp_is_written_in_one_way(
            timestamp as int,
            text@,
            timestamp_text(timestamp as int),
        );
    }
    text
}

pub(crate) proof fn lemma_year_lengths(year: int)
    ensures
        days_before_year(year + 1) - days_before_year(year) == days_before_month(year, 13),
        days_before_month(year, 13) == if is_leap_year(year) {
            366int
        } else {
            365
        },
{
    reveal_with_fuel(days_before_month, 14);
}

proof fn lemma_months(year: int, from: int, to: int)
    requires
        1 <= from <= to <= 13,
    ensures
        days_before_month(year, from) <= days_before_month(year, to),
        from < to ==> days_before_month(year, from) + days_in_month(year, from)
            <= days_before_month(year, to),
    decreases to - from,
{
    if from < to {
        lemma_months(year, from, to - 1);
    }
}

proof fn lemma_years(from: int, to: int)
    requires
        from <= to,
    ensures
        days_before_year(from) <= days_before_year(to),
        from < to ==> days_before_year(from) + days_before_month(from, 13) <= days_before_year(to),
    decreases to - from,
{
    if from < to {
        lemma_years(from, to - 1);
        lemma_year_lengths(to - 1);
        lemma_year_lengths(from);
    }
}

/// A day has one date only.
pub proof fn law_date_is_unique(
    year: int,
    month: int,
    day: int,
    other_year: int,
    other_month: int,
    other_day: int,
)
    requires
        is_date(year, month, day),
        is_date(other_year, other_month, other_day),
        day_number(year, month, day) == day_number(other_year, other_month, other_day),
    ensures
        year == other_year,
        month == other_month,
        day == other_day,
{
    lemma_months(year, month, 13);
    lemma_months(other_year, other_month, 13);
    lemma_months(year, 1, month);
    lemma_months(other_year, 1, other_month);
    if year < other_year {
        lemma_years(year, other_year);
    } else if other_year < year {
        lemma_years(other_year, year);
    } else if month < other_month {
        lemma_months(year, month, other_month);
    } else if other_month < month {
        lemma_months(year, other_month, month);
    }
}

/// A point in time is written in one way only.
pub proof fn law_timestamp_is_written_in_one_way(
    timestamp: int,
    text: Seq<char>,
    other: Seq<char>,
)
    requires
        is_timestamp_text(text, timestamp),
        is_timestamp_text(other, timestamp),
    ensures
        text == other,
{
    if has_date(timestamp) {
        let (year, month, day) = choose|year: int, month: int, day: int|
            is_date(year, month, day) && day_number(year, month, day) == timestamp / 86400 && text
                == #[trigger] date_text(year, month, day);
        let (other_year, other_month, other_day) = choose|year: int, month: int, day: int|
            is_date(year, month, day) && day_number(year, month, day) == timestamp / 86400 && other
                == #[trigger] date_text(year, month, day);
        law_date_is_unique(year, month, day, other_year, other_month, other_day);
    }
}

} // verus!
