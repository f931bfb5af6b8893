//! Sizes for the eye: a number of bytes as a text with a unit.
//!
//! Sizes above a kilobyte are shown with two decimals. They are the decimals of
//! the double nearest to the size, rounded half to even, computed here on
//! integers: dividing a double by a power of two loses nothing.

use vstd::arithmetic::power2::{lemma2_to64, lemma_pow2_unfold, pow2};
use vstd::prelude::*;
use vstd::string::*;

use crate::text::push_chars;

verus! {

/// `num / den`, rounded to the nearest integer, and to the even one of two that
/// are equally near.
pub open spec fn round_half_even(num: nat, den: nat) -> nat {
    let q = num / den;
    let r = num % den;
    if 2 * r < den || (2 * r == den && q % 2 == 0) {
        q
    } else {
        q + 1
    }
}

/// The integers that a double has a bit pattern for, without gaps, up to this
/// one.
pub const EXACT_LIMIT: u64 = 0x20_0000_0000_0000;

/// The distance between doubles around `n`: the power of two that leaves `n` 53
/// significant bits.
pub open spec fn double_step(n: nat) -> nat
    decreases n,
{
    if n < EXACT_LIMIT {
        1
    } else {
        2 * double_step(n / 2)
    }
}

/// The double nearest to `n`, and of two the one whose last bit is even.
pub open spec fn nearest_double(n: nat) -> nat {
    round_half_even(n, double_step(n)) * double_step(n)
}

/// How many bytes the unit of a size above a kilobyte stands for. A size stays
/// in a unit up to and including 1024 of it.
pub open spec fn unit_bytes(v: nat) -> nat {
    if v <= 1024 * 1024 {
        1024
    } else if v <= 1024 * 1024 * 1024 {
        1024 * 1024
    } else if v <= 1024 * 1024 * 1024 * 1024 {
        1024 * 1024 * 1024
    } else {
        1024 * 1024 * 1024 * 1024
    }
}

/// The name of the unit of a size above a kilobyte.
pub open spec fn unit_name(v: nat) -> Seq<char> {
    if v <= 1024 * 1024 {
        " KB"@
    } else if v <= 1024 * 1024 * 1024 {
        " MB"@
    } else if v <= 1024 * 1024 * 1024 * 1024 {
        " GB"@
    } else {
        " TB"@
    }
}

/// How many hundredths of its unit a size above a kilobyte is shown as.
pub open spec fn shown_hundredths(size: nat) -> nat {
    let v = nearest_double(size);
    round_half_even(v * 100, unit_bytes(v))
}

/// A decimal digit.
pub open spec fn digit(d: nat) -> char {
    ('0' as u32 + d) as char
}

/// A number in decimal notation.
pub open spec fn decimal(n: nat) -> Seq<char>
    decreases n,
{
    if n < 10 {
        seq![digit(n)]
    } else {
        decimal(n / 10).push(digit(n % 10))
    }
}

/// A number of hundredths in decimal notation, with two decimals.
pub open spec fn decimal_hundredths(h: nat) -> Seq<char> {
    decimal(h / 100) + seq!['.', digit(h / 10 % 10), digit(h % 10)]
}

/// A size as it is shown.
pub open spec fn byte_text(size: nat) -> Seq<char> {
    if size < 1024 {
        decimal(size) + " B"@
    } else if size == 1024 {
        "1 KB"@
    } else {
        decimal_hundredths(shown_hundredths(size)) + unit_name(nearest_double(size))
    }
}

// ---------------------------------------------------------------------------
// Executable functions
// ---------------------------------------------------------------------------
/// A decimal digit.
fn digit_char(d: u64) -> (res: char)
    requires
        d < 10,
    ensures
        res == digit(d as nat),
{
    (48u8 + d as u8) as char
}

/// A number in decimal notation.
pub fn decimal_chars(n: u64) -> (res: Vec<char>)
    ensures
        res@ == decimal(n as nat),
    decreases n,
{
    if n < 10 {
        let res: Vec<char> = vec![digit_char(n)];
        assert(res@ == seq![digit(n as nat)]);
        res
    } else {
        let mut res = decimal_chars(n / 10);
        res.push(digit_char(n % 10));
        res
    }
}

/// `num / den`, rounded to the nearest integer, and to the even one of two that
/// are equally near.
fn rounded(num: u128, den: u128) -> (res: u128)
    requires
        den > 0,
        2 * den <= u128::MAX,
        num < u128::MAX,
    ensures
        res == round_half_even(num as nat, den as nat),
{
    let q: u128 = num / den;
    let r: u128 = num % den;
    if 2 * r < den || (2 * r == den && q % 2 == 0) {
        q
    } else {
        assert(q <= num) by (nonlinear_arith)
            requires
                den > 0,
                q == num / den,
        ;
        q + 1
    }
}

/// The distance between doubles around `n`.
fn step_around(n: u64) -> (res: u64)
    ensures
        res == double_step(n as nat),
        0 < res <= 4096,
{
    let mut m: u64 = n;
    let mut step: u64 = 1;
    while m >= EXACT_LIMIT
        invariant
            double_step(n as nat) == step * double_step(m as nat),
            0 < step <= 4096,
            step * m <= n,
        decreases m,
    {
        let ghost old_step = step;
        let ghost old_m = m;
        assert(step < 2048) by (nonlinear_arith)
            requires
                step * m <= u64::MAX,
                m >= 0x20_0000_0000_0000,
        ;
        m = m / 2;
        step = step * 2;
        assert(step * m <= old_step * old_m) by (nonlinear_arith)
            requires
                step == 2 * old_step,
                m == old_m / 2,
        ;
        assert(step * double_step(m as nat) == old_step * (2 * double_step(m as nat)))
            by (nonlinear_arith)
            requires
                step == 2 * old_step,
        ;
    }
    assert(double_step(m as nat) == 1);
    assert(step * 1 == step);
    step
}

/// The double nearest to `n`.
fn to_double(n: u64) -> (res: u128)
    ensures
        res == nearest_double(n as nat),
        res <= 0x1_0000_0000_0000_0000 * 4096,
{
    let step: u64 = step_around(n);
    let q: u128 = rounded(n as u128, step as u128);
    assert(q <= n + 1) by (nonlinear_arith)
        requires
            q == round_half_even(n as nat, step as nat),
            step > 0,
    ;
    assert(q * step <= 0x1_0000_0000_0000_0000 * 4096) by (nonlinear_arith)
        requires
            q <= 0x1_0000_0000_0000_0000,
            step <= 4096,
    ;
    q * (step as u128)
}

/// A size as it is shown to the user.
pub fn byte_convert(size: u64) -> (res: String)
    ensures
        res@ == byte_text(size as nat),
{
    let mut out = String::new();
    if size < 1024 {
        push_chars(&mut out, decimal_chars(size).as_slice());
        out.append(" B");
        return out;
    }
    if size == 1024 {
        return "1 KB".to_owned();
    }
    let v: u128 = to_double(size);
    let kb: u128 = 1024;
    let mb: u128 = 1024 * 1024;
    let gb: u128 = 1024 * 1024 * 1024;
    let tb: u128 = 1024 * 1024 * 1024 * 1024;
    let (hundredths, name): (u128, &str) = if v <= mb {
        (rounded(v * 100, kb), " KB")
    } else if v <= gb {
        (rounded(v * 100, mb), " MB")
    } else if v <= tb {
        (rounded(v * 100, gb), " GB")
    } else {
        (rounded(v * 100, tb), " TB")
    };
    assert(hundredths == shown_hundredths(size as nat));
    assert(hundredths <= u64::MAX);
    let h: u64 = hundredths as u64;
    push_chars(&mut out, decimal_chars(h / 100).as_slice());
    out.push('.');
    out.push(digit_char(h / 10 % 10));
    out.push(digit_char(h % 10));
    assert(out@ == decimal_hundredths(h as nat));
    out.append(name);
    out
}

// ---------------------------------------------------------------------------
// Laws
// ---------------------------------------------------------------------------
/// Sizes up to nine petabytes are doubles themselves: nothing is lost before
/// rounding to two decimals.
pub proof fn law_sizes_are_exact(size: nat)
    requires
        size <= EXACT_LIMIT,
    ensures
        nearest_double(size) == size,
{
    if size == EXACT_LIMIT {
        assert(double_step(size / 2) == 1);
        assert(double_step(size) == 2);
    } else {
        assert(double_step(size) == 1);
    }
}

proof fn lemma_round_is_close(num: nat, den: nat)
    requires
        den > 0,
    ensures
        -(den as int) <= 2 * (round_half_even(num, den) * den - num) <= den,
{
    let q = num / den;
    let r = num % den;
    assert(num == q * den + r && r < den) by (nonlinear_arith)
        requires
            den > 0,
            q == num / den,
            r == num % den,
    ;
    assert((q + 1) * den == q * den + den) by (nonlinear_arith);
}

/// The number shown is off the size by at most half a hundredth of the unit.
pub proof fn law_shown_size_is_close(size: nat)
    requires
        1024 < size <= EXACT_LIMIT,
    ensures
        -(unit_bytes(size) as int) <= 2 * (shown_hundredths(size) * unit_bytes(size) - 100 * size)
            <= unit_bytes(size),
{
    law_sizes_are_exact(size);
    lemma_round_is_close(size * 100, unit_bytes(size));
}

/// Below terabytes the number shown lies between 1.00 and 1024.00.
pub proof fn law_shown_size_fits_unit(size: nat)
    requires
        1024 < size <= 1024 * 1024 * 1024 * 1024,
    ensures
        100 <= shown_hundredths(size) <= 102400,
{
    law_shown_size_is_close(size);
    let h = shown_hundredths(size);
    let unit = unit_bytes(size);
    assert(100 <= h <= 102400) by (nonlinear_arith)
        requires
            unit > 0,
            unit <= size <= 1024 * unit,
            -(unit as int) <= 2 * (h * unit - 100 * size) <= unit,
    ;
}

/// Rounding gives a nearest integer, and the even one where two are equally near.
pub proof fn law_rounding_is_to_the_nearest(num: nat, den: nat)
    requires
        den > 0,
    ensures
        ({
            let rounded = round_half_even(num, den);
            let off = 2 * (rounded * den - num);
            &&& -(den as int) <= off <= den
            &&& off == den || off == -(den as int) ==> rounded % 2 == 0
        }),
{
    lemma_round_is_close(num, den);
    let q = num / den;
    let r = num % den;
    assert(num == q * den + r && r < den) by (nonlinear_arith)
        requires
            den > 0,
            q == num / den,
            r == num % den,
    ;
    assert((q + 1) * den == q * den + den) by (nonlinear_arith);
}

/// Around a number that takes more than 53 bits, doubles are so far apart that
/// counting in their distance leaves 53 bits; the distance is a power of two. Below,
/// every integer is a double.
pub proof fn law_doubles_have_53_bits(n: nat)
    ensures
        n < 0x20_0000_0000_0000 ==> double_step(n) == 1,
        n >= 0x20_0000_0000_0000 ==> 0x10_0000_0000_0000 * double_step(n) <= n
            < 0x20_0000_0000_0000 * double_step(n),
        exists|k: nat| double_step(n) == pow2(k),
    decreases n,
{
    if n < EXACT_LIMIT {
        lemma2_to64();
        assert(double_step(n) == pow2(0));
    } else {
        law_doubles_have_53_bits(n / 2);
        let k = choose|k: nat| double_step(n / 2) == pow2(k);
        lemma_pow2_unfold(k + 1);
        assert(double_step(n) == pow2(k + 1));
    }
}

/// The double nearest to a number is a multiple of the distance between doubles,
/// off by no more than half of it, and an even multiple where two are equally near.
pub proof fn law_nearest_double_is_near(n: nat)
    ensures
        ({
            let step = double_step(n);
            let v = nearest_double(n);
            &&& step > 0
            &&& -(step as int) <= 2 * (v - n) <= step
            &&& exists|q: nat|
                v == #[trigger] (q * step) && (2 * (v - n) == step || 2 * (n - v) == step ==> q % 2
                    == 0)
        }),
{
    law_doubles_have_53_bits(n);
    let step = double_step(n);
    assert(step > 0);
    law_rounding_is_to_the_nearest(n, step);
    let q = round_half_even(n, step);
    assert(nearest_double(n) == q * step);
}

/// The ten digits are written as in ASCII.
pub proof fn law_digits_are_those_of_ascii(d: nat)
    requires
        d < 10,
    ensures
        digit(d) as u32 == 48 + d,
        '0' <= digit(d) <= '9',
{
}

/// A number is written in decimal: a digit for its units, after what is written for
/// its tens, if it has any.
pub proof fn law_numbers_are_written_in_decimal(tens: nat, d: nat)
    requires
        d < 10,
    ensures
        decimal(d) == seq![digit(d)],
        tens > 0 ==> decimal(10 * tens + d) == decimal(tens) + seq![digit(d)],
{
    if tens > 0 {
        let n = 10 * tens + d;
        assert(n / 10 == tens && n % 10 == d);
        assert(decimal(tens).push(digit(d)) == decimal(tens) + seq![digit(d)]);
    }
}

/// Hundredths are written with a point and two decimals, zeros included.
pub proof fn law_hundredths_have_two_decimals(whole: nat, tenths: nat, hundredths: nat)
    requires
        tenths < 10,
        hundredths < 10,
    ensures
        decimal_hundredths(100 * whole + 10 * tenths + hundredths) == decimal(whole) + seq![
            '.',
            digit(tenths),
            digit(hundredths),
        ],
{
    let h = 100 * whole + 10 * tenths + hundredths;
    assert(h / 100 == whole);
    assert(h / 10 == 10 * whole + tenths);
    assert(h / 10 % 10 == tenths);
    assert(h % 10 == hundredths);
}

/// Sizes below a kilobyte are shown in bytes, without decimals, and a kilobyte
/// as `1 KB`.
pub proof fn law_small_sizes_are_shown_in_bytes(size: nat)
    ensures
        size < 1024 ==> byte_text(size) == decimal(size) + seq![' ', 'B'],
        byte_text(1024) == seq!['1', ' ', 'K', 'B'],
{
    reveal_strlit(" B");
    reveal_strlit("1 KB");
    assert(" B"@ == seq![' ', 'B']);
    assert("1 KB"@ == seq!['1', ' ', 'K', 'B']);
}

/// Greater sizes are shown in hundredths of the unit that is exceeded, rounded:
/// kilobytes up to a megabyte, megabytes up to a gigabyte, gigabytes up to a
/// terabyte, and terabytes beyond, however many.
pub proof fn law_sizes_are_shown_in_the_unit_they_exceed(size: nat)
    requires
        1024 < size,
    ensures
        size <= 1_048_576 ==> byte_text(size) == decimal_hundredths(
            round_half_even(size * 100, 1024),
        ) + seq![' ', 'K', 'B'],
        1_048_576 < size <= 1_073_741_824 ==> byte_text(size) == decimal_hundredths(
            round_half_even(size * 100, 1_048_576),
        ) + seq![' ', 'M', 'B'],
        1_073_741_824 < size <= 1_099_511_627_776 ==> byte_text(size) == decimal_hundredths(
            round_half_even(size * 100, 1_073_741_824),
        ) + seq![' ', 'G', 'B'],
        1_099_511_627_776 < size ==> byte_text(size) == decimal_hundredths(
            round_half_even(nearest_double(size) * 100, 1_099_511_627_776),
        ) + seq![' ', 'T', 'B'],
{
    reveal_strlit(" KB");
    reveal_strlit(" MB");
    reveal_strlit(" GB");
    reveal_strlit(" TB");
    assert(" KB"@ == seq![' ', 'K', 'B']);
    assert(" MB"@ == seq![' ', 'M', 'B']);
    assert(" GB"@ == seq![' ', 'G', 'B']);
    assert(" TB"@ == seq![' ', 'T', 'B']);
    if size <= EXACT_LIMIT {
        law_sizes_are_exact(size);
    } else {
        law_nearest_double_is_near(size);
        law_doubles_have_53_bits(size);
    }
}

/// A greater size is never shown as a smaller number of the same unit.
pub proof fn law_rounding_keeps_the_order(a: nat, b: nat, den: nat)
    requires
        den > 0,
        a <= b,
    ensures
        round_half_even(a, den) <= round_half_even(b, den),
{
    law_rounding_is_to_the_nearest(a, den);
    law_rounding_is_to_the_nearest(b, den);
    let x = round_half_even(a, den);
    let y = round_half_even(b, den);
    if x > y {
        assert(x * den >= y * den + den) by (nonlinear_arith)
            requires
                x >= y + 1,
        ;
        assert(a == b);
    }
}

} // verus!
