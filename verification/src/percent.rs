//! A share in percent, computed as numbers with 53 significant binary digits are: each step gives
//! the nearest such number, and the even one of two that are equally near.
use vstd::prelude::*;

verus! {

/// The first number with 54 binary digits.
pub const PRECISION: u128 = 0x20_0000_0000_0000;

/// The first number with 53 binary digits.
pub const HALF_PRECISION: u128 = 0x10_0000_0000_0000;

/// The whole number that is nearest to a quotient, and the even one of two.
pub open spec fn nearest_whole(number: nat, unit: nat) -> nat {
    let below = number / unit;
    let rest = number % unit;
    if 2 * rest < unit || (2 * rest == unit && below % 2 == 0) {
        below
    } else {
        below + 1
    }
}

/// The number with 53 significant digits that is nearest to a whole number, where it is a multiple
/// of at least a power of two.
pub open spec fn nearest_from(number: nat, unit: nat) -> nat
    decreases number - unit,
{
    if unit == 0 || number < PRECISION as nat * unit {
        nearest_whole(number, unit) * unit
    } else {
        nearest_from(number, 2 * unit)
    }
}

/// The number with 53 significant digits that is nearest to a whole number.
pub open spec fn nearest(number: nat) -> nat {
    nearest_from(number, 1)
}

/// The number with 53 significant digits that is nearest to a quotient, as a whole number over a
/// power of two that is at least a given one.
pub open spec fn quotient_from(number: nat, by: nat, over: nat) -> (nat, nat)
    decreases
            if HALF_PRECISION as nat * by > over {
                HALF_PRECISION as nat * by - over
            } else {
                0
            },
{
    if number == 0 || over == 0 || number * over >= HALF_PRECISION as nat * by {
        (nearest_whole(number * over, by), over)
    } else {
        proof {
            assert(number * over >= over) by (nonlinear_arith)
                requires
                    number > 0,
            ;
        }
        quotient_from(number, by, 2 * over)
    }
}

/// A share of a whole in percent: the share, the whole, their quotient and a hundred times it are
/// numbers with 53 significant digits, and what comes out is rounded, halves upwards.
pub open spec fn percent_of(share: nat, whole: nat) -> nat {
    let (quotient, over) = quotient_from(nearest(share), nearest(whole), 1);
    let hundredfold = nearest(100 * quotient);
    (2 * hundredfold + over) / (2 * over)
}

fn round_whole(number: u128, unit: u128) -> (result: u128)
    requires
        0 < unit <= u64::MAX + 1,
        number <= 0x20_0000_0000_0000_0000_0000_0000_0000,
    ensures
        result == nearest_whole(number as nat, unit as nat),
        number / unit <= result <= number / unit + 1,
{
    let below: u128 = number / unit;
    let rest: u128 = number % unit;
    if 2 * rest < unit || (2 * rest == unit && below % 2 == 0) {
        below
    } else {
        below + 1
    }
}

fn round_number(number: u64) -> (result: u128)
    ensures
        result == nearest(number as nat),
        number > 0 ==> result > 0,
        result <= u64::MAX + 1,
{
    let wide: u128 = number as u128;
    let mut unit: u128 = 1;
    while wide >= PRECISION * unit
        invariant
            wide == number,
            1 <= unit <= 2048,
            nearest(number as nat) == nearest_from(number as nat, unit as nat),
            unit > 1 ==> wide >= HALF_PRECISION * unit,
            u64::MAX + 1 == 0x1_0000_0000_0000_0000,
            unit == 1 || unit == 2 || unit == 4 || unit == 8 || unit == 16 || unit == 32 || unit
                == 64 || unit == 128 || unit == 256 || unit == 512 || unit == 1024 || unit == 2048,
        decreases 4096 - unit,
    {
        unit = 2 * unit;
    }
    let whole: u128 = round_whole(wide, unit);
    proof {
        lemma_rounded_bounds(wide as int, unit as int, whole as int);
    }
    whole * unit
}

proof fn lemma_rounded_bounds(number: int, unit: int, whole: int)
    requires
        0 <= number <= u64::MAX,
        unit == 1 || unit == 2 || unit == 4 || unit == 8 || unit == 16 || unit == 32 || unit == 64
            || unit == 128 || unit == 256 || unit == 512 || unit == 1024 || unit == 2048,
        number / unit <= whole <= number / unit + 1,
        unit > 1 ==> number >= HALF_PRECISION * unit,
        unit == 1 ==> whole == number,
    ensures
        0 <= whole * unit <= u64::MAX + 1,
        number > 0 ==> whole * unit > 0,
{
    assert(unit * (number / unit) <= number < unit * (number / unit) + unit) by (nonlinear_arith)
        requires
            unit > 0,
            number >= 0,
    ;
}

fn divide(number: u128, by: u128) -> (result: (u128, u128))
    requires
        0 < number <= by <= u64::MAX + 1,
    ensures
        ({
            let wanted = quotient_from(number as nat, by as nat, 1);
            result.0 == wanted.0 && result.1 == wanted.1
        }),
        result.0 <= PRECISION,
        0 < result.1 <= 0x20_0000_0000_0000_0000_0000_0000_0000,
{
    let mut over: u128 = 1;
    assert(number < PRECISION * by) by (nonlinear_arith)
        requires
            number <= by,
            by > 0,
            PRECISION > 1,
    ;
    while number * over < HALF_PRECISION * by
        invariant
            0 < number <= by <= u64::MAX + 1,
            u64::MAX + 1 == 0x1_0000_0000_0000_0000,
            0 < over,
            number * over < PRECISION * by,
            over <= number * over,
            quotient_from(number as nat, by as nat, 1) == quotient_from(
                number as nat,
                by as nat,
                over as nat,
            ),
        decreases PRECISION * by - over,
    {
        proof {
            assert(number * (2 * over) == 2 * (number * over)) by (nonlinear_arith);
        }
        over = 2 * over;
    }
    proof {
        let product = number * over;
        assert(product / by as int <= PRECISION - 1) by (nonlinear_arith)
            requires
                0 <= product < PRECISION * by,
                by > 0,
        ;
    }
    (round_whole(number * over, by), over)
}

/// Finds a share of a whole in percent.
pub fn percent(share: u64, whole: u64) -> (result: u64)
    requires
        share <= whole,
        whole > 0,
    ensures
        result == percent_of(share as nat, whole as nat),
{
    if share == 0 {
        proof {
            lemma_nothing(whole as nat);
        }
        return 0;
    }
    let number: u128 = round_number(share);
    let by: u128 = round_number(whole);
    proof {
        lemma_nearest_grows(share as nat, whole as nat);
    }
    let (quotient, over) = divide(number, by);
    let hundredfold: u128 = round_number((100 * quotient) as u64);
    let result: u128 = (2 * hundredfold + over) / (2 * over);
    proof {
        law_percent_in_bounds(share as nat, whole as nat);
    }
    result as u64
}

proof fn lemma_parts(number: nat, unit: nat)
    requires
        unit > 0,
    ensures
        number == unit * (number / unit) + number % unit,
        0 <= number % unit < unit,
        nearest_whole(number, unit) * unit <= number + unit,
        nearest_whole(number, unit) * unit + unit >= number,
{
    let below = number / unit;
    let rest = number % unit;
    assert(number == unit * below + rest && 0 <= rest < unit) by (nonlinear_arith)
        requires
            unit > 0,
            below == number / unit,
            rest == number % unit,
    ;
    assert((below + 1) * unit == unit * below + unit) by (nonlinear_arith);
    assert(below * unit == unit * below) by (nonlinear_arith);
}

proof fn lemma_whole_grows(number: nat, other: nat, unit: nat)
    requires
        unit > 0,
        number <= other,
    ensures
        nearest_whole(number, unit) <= nearest_whole(other, unit),
{
    lemma_parts(number, unit);
    lemma_parts(other, unit);
    assert(number / unit <= other / unit) by (nonlinear_arith)
        requires
            unit > 0,
            number <= other,
    ;
}

proof fn lemma_nearest_starts(number: nat, unit: nat)
    requires
        unit > 0,
        number >= PRECISION as nat * unit,
    ensures
        nearest_from(number, unit) >= PRECISION as nat * unit,
    decreases number - unit,
{
    let twice = 2 * unit;
    if number < PRECISION as nat * twice {
        lemma_parts(number, twice);
        assert(number / twice >= HALF_PRECISION) by (nonlinear_arith)
            requires
                number >= HALF_PRECISION as nat * twice,
                twice > 0,
        ;
        let whole = nearest_whole(number, twice);
        assert(whole * twice >= HALF_PRECISION as nat * twice) by (nonlinear_arith)
            requires
                whole >= HALF_PRECISION,
                twice > 0,
        ;
        reveal_with_fuel(nearest_from, 2);
    } else {
        lemma_nearest_starts(number, twice);
    }
}

proof fn lemma_from_grows(number: nat, other: nat, unit: nat)
    requires
        unit > 0,
        number <= other,
    ensures
        nearest_from(number, unit) <= nearest_from(other, unit),
    decreases other - unit,
{
    if other < PRECISION as nat * unit {
        lemma_whole_grows(number, other, unit);
        let left = nearest_whole(number, unit);
        let right = nearest_whole(other, unit);
        assert(left * unit <= right * unit) by (nonlinear_arith)
            requires
                left <= right,
        ;
    } else if number < PRECISION as nat * unit {
        lemma_nearest_starts(other, unit);
        lemma_parts(number, unit);
        assert(number / unit <= PRECISION - 1) by (nonlinear_arith)
            requires
                number < PRECISION as nat * unit,
                unit > 0,
        ;
        let left = nearest_whole(number, unit);
        assert(left * unit <= PRECISION as nat * unit) by (nonlinear_arith)
            requires
                left <= PRECISION,
        ;
    } else {
        lemma_from_grows(number, other, 2 * unit);
    }
}

proof fn lemma_nearest_grows(number: nat, other: nat)
    requires
        number <= other,
    ensures
        nearest(number) <= nearest(other),
{
    lemma_from_grows(number, other, 1);
}

proof fn lemma_nothing(whole: nat)
    requires
        whole > 0,
    ensures
        percent_of(0, whole) == 0,
{
    let by = nearest(whole);
    lemma_parts(0, 1);
    assert(nearest(0) == 0);
    lemma_nearest_grows(1, whole);
    lemma_parts(1, 1);
    assert(nearest(1) == 1);
    assert(quotient_from(0, by, 1) == (nearest_whole(0, by), 1nat));
    lemma_parts(0, by);
    assert(0nat / by == 0 && 0nat % by == 0) by (nonlinear_arith)
        requires
            by > 0,
    ;
    assert(quotient_from(0, by, 1) == (0nat, 1nat));
    assert(nearest(100 * 0nat) == 0) by {
        assert(100 * 0nat == 0);
    }
    let over: nat = 1;
    let hundredfold: nat = 0;
    assert((2 * hundredfold + over) / (2 * over) == 0) by (nonlinear_arith)
        requires
            over == 1,
            hundredfold == 0,
    ;
}

proof fn lemma_nearest_error(number: nat, unit: nat)
    requires
        unit > 0,
        unit == 1 || number >= HALF_PRECISION as nat * unit,
    ensures
        nearest_from(number, unit) * HALF_PRECISION <= number * (HALF_PRECISION + 1),
        nearest_from(number, unit) * HALF_PRECISION >= number * (HALF_PRECISION - 1),
    decreases number - unit,
{
    if number < PRECISION as nat * unit {
        lemma_parts(number, unit);
        if unit == 1 {
            assert(nearest_whole(number, 1) == number);
        }
    } else {
        lemma_nearest_error(number, 2 * unit);
    }
}

proof fn lemma_quotient_at_most_one(number: nat, by: nat, over: nat)
    requires
        number <= by,
        by > 0,
        over > 0,
    ensures
        ({
            let (quotient, scale) = quotient_from(number, by, over);
            quotient <= scale && scale > 0
        }),
        number == by ==> ({
            let (quotient, scale) = quotient_from(number, by, over);
            quotient == scale
        }),
    decreases
            if HALF_PRECISION as nat * by > over {
                HALF_PRECISION as nat * by - over
            } else {
                0
            },
{
    if number == 0 || number * over >= HALF_PRECISION as nat * by {
        assert(number * over <= by * over) by (nonlinear_arith)
            requires
                number <= by,
        ;
        lemma_whole_grows(number * over, by * over, by);
        assert((by * over) / by == over && (by * over) % by == 0) by (nonlinear_arith)
            requires
                by > 0,
        ;
    } else {
        assert(number * over >= over) by (nonlinear_arith)
            requires
                number > 0,
        ;
        lemma_quotient_at_most_one(number, by, 2 * over);
    }
}

/// A share is at most a hundred percent, nothing is zero percent, and the whole is a hundred.
pub proof fn law_percent_in_bounds(share: nat, whole: nat)
    requires
        share <= whole,
        whole > 0,
    ensures
        percent_of(share, whole) <= 100,
        percent_of(0, whole) == 0,
        percent_of(whole, whole) == 100,
{
    lemma_nothing(whole);
    let by = nearest(whole);
    lemma_nearest_grows(share, whole);
    lemma_nearest_grows(1, whole);
    lemma_parts(1, 1);
    assert(nearest(1) == 1);
    let (quotient, over) = quotient_from(nearest(share), by, 1);
    lemma_quotient_at_most_one(nearest(share), by, 1);
    lemma_nearest_error(100 * quotient, 1);
    let hundredfold = nearest(100 * quotient);
    assert(2 * hundredfold + over < 202 * over);
    assert((2 * hundredfold + over) / (2 * over) <= 100) by (nonlinear_arith)
        requires
            2 * hundredfold + over < 202 * over,
            over > 0,
    ;
    let (all, scale) = quotient_from(by, by, 1);
    lemma_quotient_at_most_one(by, by, 1);
    lemma_nearest_error(100 * all, 1);
    let most = nearest(100 * all);
    assert(2 * most + scale < 202 * scale);
    assert(2 * most + scale >= 200 * scale);
    assert((2 * most + scale) / (2 * scale) == 100) by (nonlinear_arith)
        requires
            200 * scale <= 2 * most + scale < 202 * scale,
            scale > 0,
    ;
}

} // verus!
