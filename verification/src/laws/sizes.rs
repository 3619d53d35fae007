//! How sizes are shown.
use crate::size::{nearest_even, size_text, spacing, to_53_digits, unit_bytes};
use crate::text::decimal;
use vstd::arithmetic::div_mod::lemma_fundamental_div_mod;
use vstd::prelude::*;

verus! {

/// The unit suits the size: it is not more than the size, and below 1024 terabytes the number
/// that is shown is at most 1024.
pub proof fn unit_suits_the_size(size: nat)
    ensures
        size > 0 ==> unit_bytes(size) <= size,
        size < 0x4_0000_0000_0000 ==> nearest_even(size * 100, unit_bytes(size)) <= 102400,
{
    let n = size * 100;
    if size < 0x400 {
        assert(unit_bytes(size) == 1);
        assert(n / 1 <= 102300);
    } else if size < 0x10_0000 {
        assert(unit_bytes(size) == 0x400);
        assert(n / 0x400 < 102400);
    } else if size < 0x4000_0000 {
        assert(unit_bytes(size) == 0x10_0000);
        assert(n / 0x10_0000 < 102400);
    } else if size < 0x100_0000_0000 {
        assert(unit_bytes(size) == 0x4000_0000);
        assert(n / 0x4000_0000 < 102400);
    } else if size < 0x4_0000_0000_0000 {
        assert(unit_bytes(size) == 0x100_0000_0000);
        assert(n / 0x100_0000_0000 < 102400);
    }
}

/// A size with at most 53 binary digits is shown from its exact value.
pub proof fn small_sizes_are_exact(size: nat)
    requires
        size < 0x20_0000_0000_0000,
    ensures
        to_53_digits(size) == size,
{
    assert(spacing(size, 1) == 1);
}

/// A number of hundredths of a unit, with the point before the last two digits.
pub open spec fn hundredths_of(h: nat, unit: Seq<char>) -> Seq<char> {
    decimal(h / 100) + seq!['.'] + decimal(h / 10 % 10) + decimal(h % 10) + seq![' '] + unit
}

/// The size of the unit in which a size is shown, and the name of the unit: the first for less
/// than 1024 bytes, and each of the next for less than 1024 times as much, up to terabytes.
pub open spec fn unit_for(size: nat) -> (nat, Seq<char>) {
    if size < 1024 {
        (1, seq!['B'])
    } else if size < 1048576 {
        (1024, seq!['K', 'B'])
    } else if size < 1073741824 {
        (1048576, seq!['M', 'B'])
    } else if size < 1099511627776 {
        (1073741824, seq!['G', 'B'])
    } else {
        (1099511627776, seq!['T', 'B'])
    }
}

/// A size is shown to the nearest hundredth of its unit: what is shown is wrong by half a
/// hundredth at most, and in the middle between two hundredths the even one is shown. A size with
/// at most 53 binary digits is meant itself, a larger one by the number that is close to it.
pub proof fn a_size_is_shown_to_the_nearest_hundredth(size: nat)
    ensures
        ({
            let meant = to_53_digits(size);
            let bytes = unit_for(meant).0;
            exists|h: nat|
                {
                    &&& size_text(size) == #[trigger] hundredths_of(
                        h,
                        unit_for(to_53_digits(size)).1,
                    )
                    &&& 2 * (h * bytes) <= 2 * (meant * 100) + bytes
                    &&& 2 * (meant * 100) <= 2 * (h * bytes) + bytes
                    &&& (2 * (h * bytes) == 2 * (meant * 100) + bytes || 2 * (meant * 100) == 2 * (h
                        * bytes) + bytes) ==> h % 2 == 0
                }
        }),
        size < 0x20_0000_0000_0000 ==> to_53_digits(size) == size,
        size < 1024 ==> size_text(size) == decimal(size) + seq!['.', '0', '0', ' ', 'B'],
{
    reveal_strlit(".");
    reveal_strlit(" ");
    reveal_strlit("B");
    reveal_strlit("KB");
    reveal_strlit("MB");
    reveal_strlit("GB");
    reveal_strlit("TB");
    assert("."@ =~= seq!['.']);
    assert(" "@ =~= seq![' ']);
    assert("B"@ =~= seq!['B']);
    assert("KB"@ =~= seq!['K', 'B']);
    assert("MB"@ =~= seq!['M', 'B']);
    assert("GB"@ =~= seq!['G', 'B']);
    assert("TB"@ =~= seq!['T', 'B']);
    if size < 0x20_0000_0000_0000 {
        small_sizes_are_exact(size);
    }
    let meant = to_53_digits(size);
    let bytes = unit_for(meant).0;
    let n = meant * 100;
    let h = nearest_even(n, bytes);
    lemma_nearest_even(n, bytes);
    assert(size_text(size) == hundredths_of(h, unit_for(to_53_digits(size)).1));
    if size < 1024 {
        assert(h == n);
        assert(h / 100 == size && h / 10 % 10 == 0 && h % 10 == 0);
        assert(decimal(0) =~= seq!['0']);
        assert(size_text(size) =~= decimal(size) + seq!['.', '0', '0', ' ', 'B']);
    }
}

/// Rounding is wrong by half of the divisor at most, and in the middle it gives the even number.
proof fn lemma_nearest_even(n: nat, d: nat)
    requires
        d > 0,
    ensures
        2 * (nearest_even(n, d) * d) <= 2 * n + d,
        2 * n <= 2 * (nearest_even(n, d) * d) + d,
        (2 * (nearest_even(n, d) * d) == 2 * n + d || 2 * n == 2 * (nearest_even(n, d) * d) + d)
            ==> nearest_even(n, d) % 2 == 0,
        n % d == 0 ==> nearest_even(n, d) == n / d,
{
    lemma_fundamental_div_mod(n as int, d as int);
    let q = n / d;
    let r = n % d;
    assert(d * q == q * d) by (nonlinear_arith);
    assert((q + 1) * d == q * d + d) by (nonlinear_arith);
}

/// A size with more than 53 binary digits is shown as a number that is as close to it as a number
/// with 53 binary digits can be.
pub proof fn large_sizes_are_close(size: nat)
    ensures
        ({
            let step = spacing(size, 1);
            &&& step >= 1
            &&& 2 * to_53_digits(size) <= 2 * size + step
            &&& 2 * size <= 2 * to_53_digits(size) + step
            &&& step == 1 || 0x10_0000_0000_0000 * step <= size
        }),
{
    lemma_spacing(size, 1);
    lemma_nearest_even(size, spacing(size, 1));
}

/// How far numbers with 53 binary digits lie apart.
proof fn lemma_spacing(size: nat, step: nat)
    requires
        step >= 1,
        step == 1 || 0x10_0000_0000_0000 * step <= size,
    ensures
        spacing(size, step) >= 1,
        spacing(size, step) == 1 || 0x10_0000_0000_0000 * spacing(size, step) <= size,
    decreases size - step,
{
    if size >= 0x20_0000_0000_0000 * step {
        lemma_spacing(size, 2 * step);
    }
}

} // verus!
