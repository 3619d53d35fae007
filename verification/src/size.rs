//! Sizes for people to read.
use crate::text::{append_chars, chars_of, decimal, decimal_chars, string_of};
use vstd::arithmetic::div_mod::{
    lemma_div_is_ordered_by_denominator, lemma_fundamental_div_mod,
};
use vstd::prelude::*;

verus! {

/// The quotient of `n` and `d`, rounded to the nearest whole number; one that lies in the
/// middle is rounded to the even number.
pub open spec fn nearest_even(n: nat, d: nat) -> nat {
    let q = n / d;
    let r = n % d;
    if 2 * r < d || (2 * r == d && q % 2 == 0) {
        q
    } else {
        q + 1
    }
}

/// The distance between the numbers around `size` that have 53 binary digits: the first of
/// `step`, twice `step` and so on that leaves no more digits than that.
pub open spec fn spacing(size: nat, step: nat) -> nat
    decreases size - step,
{
    if step == 0 || size < 0x20_0000_0000_0000 * step {
        step
    } else {
        spacing(size, 2 * step)
    }
}

/// `size` to 53 binary digits, which is as exact as the sizes are shown.
pub open spec fn to_53_digits(size: nat) -> nat {
    nearest_even(size, spacing(size, 1)) * spacing(size, 1)
}

/// How many bytes the unit has in which a size is shown: the largest of the units up to the
/// terabyte that is not more than the size, and at least the byte.
pub open spec fn unit_bytes(size: nat) -> nat {
    if size < 0x400 {
        1
    } else if size < 0x10_0000 {
        0x400
    } else if size < 0x4000_0000 {
        0x10_0000
    } else if size < 0x100_0000_0000 {
        0x4000_0000
    } else {
        0x100_0000_0000
    }
}

/// The name of the unit in which a size is shown.
pub open spec fn unit_name(size: nat) -> Seq<char> {
    if size < 0x400 {
        "B"@
    } else if size < 0x10_0000 {
        "KB"@
    } else if size < 0x4000_0000 {
        "MB"@
    } else if size < 0x100_0000_0000 {
        "GB"@
    } else {
        "TB"@
    }
}

/// A number of hundredths, with two digits behind the point.
pub open spec fn with_two_digits(hundredths: nat) -> Seq<char> {
    decimal(hundredths / 100) + "."@ + decimal(hundredths / 10 % 10) + decimal(hundredths % 10)
}

/// A size in the unit that suits it, to two digits behind the point.
pub open spec fn size_text(size: nat) -> Seq<char> {
    let shown = to_53_digits(size);
    with_two_digits(nearest_even(shown * 100, unit_bytes(shown))) + " "@ + unit_name(shown)
}

/// The quotient of `n` and `d`, rounded to the nearest whole number.
fn nearest(n: u128, d: u128) -> (r: u128)
    requires
        0 < d,
        n < 0x1_0000_0000_0000_0000_0000_0000,
        d < 0x1_0000_0000_0000_0000_0000_0000,
    ensures
        r == nearest_even(n as nat, d as nat),
        r * d <= n + d,
        r <= n / d + 1,
{
    let q: u128 = n / d;
    let rest: u128 = n % d;
    proof {
        lemma_fundamental_div_mod(n as int, d as int);
        lemma_div_is_ordered_by_denominator(n as int, 1, d as int);
        assert((q + 1) * d == q * d + d) by (nonlinear_arith);
        assert(q * d == d * q) by (nonlinear_arith);
    }
    if 2 * rest < d || (2 * rest == d && q % 2 == 0) {
        q
    } else {
        q + 1
    }
}

/// Shows a size in the unit that suits it, to two digits behind the point.
pub fn format_size(size: usize) -> (r: String)
    ensures
        r@ == size_text(size as nat),
{
    let exact: u128 = size as u128;
    let mut step: u128 = 1;
    while exact >= 0x20_0000_0000_0000 * step
        invariant
            1 <= step <= 0x1000,
            exact <= u64::MAX,
            spacing(exact as nat, 1) == spacing(exact as nat, step as nat),
        decreases exact - step,
    {
        step = step * 2;
    }
    let whole: u128 = nearest(exact, step);
    assert(whole * step <= exact + step);
    let shown: u128 = whole * step;
    assert(shown == to_53_digits(size as nat));
    let (unit, name): (u128, &str) = if shown < 0x400 {
        (1, "B")
    } else if shown < 0x10_0000 {
        (0x400, "KB")
    } else if shown < 0x4000_0000 {
        (0x10_0000, "MB")
    } else if shown < 0x100_0000_0000 {
        (0x4000_0000, "GB")
    } else {
        (0x100_0000_0000, "TB")
    };
    let hundredths: u128 = nearest(shown * 100, unit);
    assert(hundredths <= u64::MAX);
    let h: u64 = hundredths as u64;
    let mut r = decimal_chars(h / 100);
    append_chars(&mut r, &chars_of("."));
    append_chars(&mut r, &decimal_chars(h / 10 % 10));
    append_chars(&mut r, &decimal_chars(h % 10));
    append_chars(&mut r, &chars_of(" "));
    append_chars(&mut r, &chars_of(name));
    string_of(&r)
}

} // verus!
