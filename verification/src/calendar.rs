//! How days follow one another, how dates are written, and how much of a context is left.
use vstd::prelude::*;

use crate::agent::ContextRemaining;
use crate::dates::{date_text, day_number, days_before_month, days_before_year, days_in_month,
    is_date, is_leap_year, lemma_year_lengths, zero_padded};
use crate::percent::law_percent_in_bounds;
use crate::text::decimal;

verus! {

/// Each day is followed by the next one: of the same month, or the first of the next month behind the
/// last of a month, or the first of the next year behind the last of a year.
pub proof fn law_next_day(year: int, month: int, day: int)
    requires
        is_date(year, month, day),
    ensures
        day < days_in_month(year, month) ==> day_number(year, month, day + 1) == day_number(
            year,
            month,
            day,
        ) + 1,
        day == days_in_month(year, month) && month < 12 ==> day_number(year, month + 1, 1)
            == day_number(year, month, day) + 1,
        day == days_in_month(year, month) && month == 12 ==> day_number(year + 1, 1, 1)
            == day_number(year, month, day) + 1,
{
    if month == 12 {
        law_days_of_a_year(year);
    }
}

/// A year has 365 days, and 366 where it is a leap year: every fourth year is one, but for every
/// hundredth that is not a four-hundredth.
pub proof fn law_days_of_a_year(year: int)
    ensures
        days_before_month(year, 13) == if year % 400 == 0 || (year % 4 == 0 && year % 100 != 0) {
            366
        } else {
            365int
        },
        days_before_year(year + 1) == days_before_year(year) + days_before_month(year, 13),
        is_leap_year(year) <==> days_in_month(year, 2) == 29,
{
    lemma_year_lengths(year);
}

/// Days are counted from the first of January 1970 on, and the calendar repeats every four hundred
/// years.
pub proof fn law_calendar_repeats(year: int, month: int, day: int)
    requires
        1 <= month <= 12,
    ensures
        day_number(1970, 1, 1) == 0,
        day_number(year + 400, month, day) == day_number(year, month, day) + 146097,
        days_in_month(year + 400, month) == days_in_month(year, month),
        days_in_month(year, month) == 30 <==> month == 4 || month == 6 || month == 9 || month == 11,
        days_in_month(year, month) < 30 <==> month == 2,
        days_in_month(year, month) <= 31,
{
    lemma_months_repeat(year, month);
}

proof fn lemma_months_repeat(year: int, month: int)
    requires
        1 <= month <= 12,
    ensures
        days_in_month(year + 400, month) == days_in_month(year, month),
        days_before_month(year + 400, month) == days_before_month(year, month),
    decreases month,
{
    if month > 1 {
        lemma_months_repeat(year, month - 1);
    }
}

/// Zeros stand before digits up to a width, and nothing else changes.
pub proof fn law_zeros(digits: Seq<char>, width: int)
    ensures
        digits.len() >= width ==> zero_padded(digits, width) == digits,
        digits.len() < width ==> zero_padded(digits, width) == Seq::new(
            (width - digits.len()) as nat,
            |k: int| '0',
        ) + digits,
    decreases width - digits.len(),
{
    if digits.len() < width {
        let more = seq!['0'] + digits;
        law_zeros(more, width);
        if more.len() < width {
            assert(Seq::new((width - more.len()) as nat, |k: int| '0') + more =~= Seq::new(
                (width - digits.len()) as nat,
                |k: int| '0',
            ) + digits);
        } else {
            assert(more =~= Seq::new((width - digits.len()) as nat, |k: int| '0') + digits);
        }
    }
}

/// A date is written as its year, its month and its day, in this order, with a hyphen between them.
pub proof fn law_written_date(year: int, month: int, day: int)
    requires
        0 <= year,
        0 <= month,
        0 <= day,
        decimal(year as nat).len() == 4,
        decimal(month as nat).len() == 2,
        decimal(day as nat).len() == 2,
    ensures
        date_text(year, month, day) == decimal(year as nat) + seq!['-'] + decimal(month as nat)
            + seq!['-'] + decimal(day as nat),
{
    law_zeros(decimal(year as nat), 4);
    law_zeros(decimal(month as nat), 2);
    law_zeros(decimal(day as nat), 2);
}

/// A month or a day of one digit is written with a zero before it.
pub proof fn law_written_short_date(year: int, month: int, day: int)
    requires
        0 <= year,
        0 <= month,
        0 <= day,
        decimal(year as nat).len() == 4,
        decimal(month as nat).len() == 1,
        decimal(day as nat).len() == 1,
    ensures
        date_text(year, month, day) == decimal(year as nat) + seq!['-', '0'] + decimal(month as nat)
            + seq!['-', '0'] + decimal(day as nat),
{
    law_zeros(decimal(year as nat), 4);
    law_zeros(decimal(month as nat), 2);
    law_zeros(decimal(day as nat), 2);
    let zero = Seq::new(1, |k: int| '0');
    assert(zero =~= seq!['0']);
    assert(date_text(year, month, day) =~= decimal(year as nat) + seq!['-', '0'] + decimal(
        month as nat,
    ) + seq!['-', '0'] + decimal(day as nat));
}

/// Of a context that was not used all is left, and of one that was used up, or more than that, or
/// that holds nothing, nothing is.
pub proof fn law_context_left(context: ContextRemaining)
    ensures
        context.share_left() <= 100,
        context.max_tokens > 0 && context.used_tokens == 0 ==> context.share_left() == 100,
        context.used_tokens >= context.max_tokens ==> context.share_left() == 0,
{
    if context.max_tokens > 0 {
        let left: nat = if context.used_tokens < context.max_tokens {
            (context.max_tokens - context.used_tokens) as nat
        } else {
            0
        };
        law_percent_in_bounds(left, context.max_tokens as nat);
    }
}

} // verus!
