//! Sizes in words: a number of bytes written in a binary unit, rounded to a
//! fixed number of decimals.

use vstd::prelude::*;
use crate::text::{decimal, digit_char, digit_of, push_decimal, push_str};

verus! {

/// Number of bytes in a KB, as sizes are told here: 2 to the power of 10.
pub const KB: u64 = 1024;

/// Number of bytes in a MB: 2 to the power of 20.
pub const MB: u64 = 1048576;

/// Number of bytes in a GB: 2 to the power of 30.
pub const GB: u64 = 1073741824;

/// `num / den` rounded to the nearest whole number; a quotient that lies
/// half-way between two whole numbers goes to the even one.
pub open spec fn round_half_even(num: nat, den: nat) -> nat {
    let quotient = num / den;
    let rest = num % den;
    if 2 * rest > den || (2 * rest == den && quotient % 2 == 1) {
        quotient + 1
    } else {
        quotient
    }
}

/// Ten to the power of `places`.
pub open spec fn scale_of(places: nat) -> nat
    decreases places,
{
    if places == 0 {
        1
    } else {
        10 * scale_of((places - 1) as nat)
    }
}

/// `n` in `places` decimal digits, with zeros in front as far as needed; the
/// digits above these are left out.
pub open spec fn padded(n: nat, places: nat) -> Seq<char>
    decreases places,
{
    if places == 0 {
        Seq::empty()
    } else {
        padded(n / 10, (places - 1) as nat).push(digit_char(n % 10))
    }
}

/// The distance between two neighbouring numbers of double precision at
/// `n`: such a number has 53 binary digits, so that from 2 to the power of
/// 53 on not every whole number is one.
pub open spec fn spacing_at(n: nat) -> nat {
    if n < 0x20_0000_0000_0000 {
        1
    } else if n < 0x40_0000_0000_0000 {
        2
    } else if n < 0x80_0000_0000_0000 {
        4
    } else if n < 0x100_0000_0000_0000 {
        8
    } else if n < 0x200_0000_0000_0000 {
        16
    } else if n < 0x400_0000_0000_0000 {
        32
    } else if n < 0x800_0000_0000_0000 {
        64
    } else if n < 0x1000_0000_0000_0000 {
        128
    } else if n < 0x2000_0000_0000_0000 {
        256
    } else if n < 0x4000_0000_0000_0000 {
        512
    } else if n < 0x8000_0000_0000_0000 {
        1024
    } else {
        2048
    }
}

/// The number of double precision that is nearest to `n`, for `n` below 2
/// to the power of 64. Sizes are measured in such numbers.
pub open spec fn nearest_double(n: nat) -> nat {
    round_half_even(n, spacing_at(n)) * spacing_at(n)
}

/// `value / unit` as a decimal number with `places` digits behind the point,
/// where `value` is taken in double precision and the quotient is rounded by
/// [`round_half_even`]. Without such digits there is no point either.
pub open spec fn fixed(value: nat, unit: nat, places: nat) -> Seq<char> {
    let scaled = round_half_even(nearest_double(value) * scale_of(places), unit);
    if places == 0 {
        decimal(scaled)
    } else {
        decimal(scaled / scale_of(places)) + "."@ + padded(scaled % scale_of(places), places)
    }
}

/// Appends `n` in `places` digits, zeros in front.
fn push_padded(dst: &mut Vec<char>, n: u64, places: u8)
    ensures
        final(dst)@ == old(dst)@ + padded(n as nat, places as nat),
    decreases places,
{
    if places > 0 {
        push_padded(dst, n / 10, places - 1);
        dst.push(digit_of(n % 10));
    }
}

fn spacing(value: u64) -> (distance: u64)
    ensures
        distance == spacing_at(value as nat),
        1 <= distance <= 2048,
{
    if value < 0x20_0000_0000_0000 {
        1
    } else if value < 0x40_0000_0000_0000 {
        2
    } else if value < 0x80_0000_0000_0000 {
        4
    } else if value < 0x100_0000_0000_0000 {
        8
    } else if value < 0x200_0000_0000_0000 {
        16
    } else if value < 0x400_0000_0000_0000 {
        32
    } else if value < 0x800_0000_0000_0000 {
        64
    } else if value < 0x1000_0000_0000_0000 {
        128
    } else if value < 0x2000_0000_0000_0000 {
        256
    } else if value < 0x4000_0000_0000_0000 {
        512
    } else if value < 0x8000_0000_0000_0000 {
        1024
    } else {
        2048
    }
}

/// The number of double precision that is nearest to `value`.
fn to_double(value: u64) -> (nearest: u128)
    ensures
        nearest == nearest_double(value as nat),
        nearest <= 0x1_0000_0000_0000_0000,
{
    let distance: u64 = spacing(value);
    let quotient: u64 = value / distance;
    let rest: u64 = value % distance;
    let up: bool = 2 * rest > distance || (2 * rest == distance && quotient % 2 == 1);
    let steps: u128 = if up {
        quotient as u128 + 1
    } else {
        quotient as u128
    };
    assert(steps * distance <= value + distance && steps * distance <= 0x1_0000_0000_0000_0000)
        by (nonlinear_arith)
        requires
            steps <= value / distance + 1,
            steps == value / distance + 1 ==> 2 * (value % distance) >= distance,
            1 <= distance <= 2048,
            distance == 1 || distance * 0x10_0000_0000_0000 <= value,
            value <= 0xffff_ffff_ffff_ffff,
            value < distance * 0x20_0000_0000_0000,
    ;
    steps * distance as u128
}

/// Appends `value / unit` with `places` decimals.
pub(crate) fn push_fixed(dst: &mut Vec<char>, value: u64, unit: u64, places: u8)
    requires
        unit >= 1024,
        places <= 2,
    ensures
        final(dst)@ == old(dst)@ + fixed(value as nat, unit as nat, places as nat),
{
    proof {
        reveal_with_fuel(scale_of, 4);
    }
    let scale: u64 = if places == 0 {
        1
    } else if places == 1 {
        10
    } else {
        100
    };
    assert(scale == scale_of(places as nat));
    let nearest: u128 = to_double(value);
    assert(nearest * scale <= 0x1_0000_0000_0000_0000 * 100) by (nonlinear_arith)
        requires
            nearest <= 0x1_0000_0000_0000_0000,
            scale <= 100,
    ;
    let scaled: u128 = nearest * scale as u128;
    let quotient: u128 = scaled / unit as u128;
    let rest: u128 = scaled % unit as u128;
    assert(quotient * 1024 <= scaled) by (nonlinear_arith)
        requires
            quotient == scaled / unit as u128,
            unit >= 1024,
            scaled >= 0,
    ;
    let up: bool = 2 * rest > unit as u128 || (2 * rest == unit as u128 && quotient % 2 == 1);
    let rounded: u64 = if up {
        (quotient + 1) as u64
    } else {
        quotient as u64
    };
    assert(rounded == round_half_even(
        nearest_double(value as nat) * scale_of(places as nat),
        unit as nat,
    ));
    if places == 0 {
        push_decimal(dst, rounded);
    } else {
        push_decimal(dst, rounded / scale);
        push_str(dst, ".");
        push_padded(dst, rounded % scale, places);
    }
}

} // verus!
