//! Numbers shown with a fixed number of decimals, as binary floating point shows them.

use crate::text::{decimal, decimal_text, digit_char};
use vstd::arithmetic::power2::{
    lemma2_to64, lemma2_to64_rest, lemma_pow2_strictly_increases, lemma_pow2_unfold, pow2,
};
use vstd::prelude::*;

verus! {

/// The whole number nearest to `num / den`, and the even one of two equally near ones.
pub open spec fn nearest(num: nat, den: nat) -> nat {
    let q = num / den;
    let r = num % den;
    if 2 * r < den || 2 * r == den && q % 2 == 0 {
        q
    } else {
        q + 1
    }
}

/// The whole number nearest to `num / den`, and the even one of two equally near ones.
fn divide_to_nearest(num: u128, den: u128) -> (r: u128)
    requires
        0 < den < 0x4000_0000_0000_0000_0000_0000_0000_0000,
    ensures
        r == nearest(num as nat, den as nat),
{
    let q: u128 = num / den;
    let r: u128 = num % den;
    if 2 * r < den || 2 * r == den && q % 2 == 0 {
        q
    } else {
        assert(q < u128::MAX) by (nonlinear_arith)
            requires
                q == num / den,
                r == num % den,
                r > 0 || den > 1,
                num <= u128::MAX,
                den > 0,
        {
            assert(q * den + r == num);
            assert(q * den >= q);
            if den > 1 {
                assert(q * den >= 2 * q);
            }
        }
        q + 1
    }
}

/// The number of bits, out of at most `most`, that have to be dropped from `n` so that what is
/// left fits in the 53 bits of a double's mantissa.
pub open spec fn surplus_bits(n: nat, most: nat) -> nat
    decreases most,
{
    if most == 0 || n < pow2(53) {
        0
    } else {
        1 + surplus_bits(n / 2, (most - 1) as nat)
    }
}

/// The double nearest to a 64-bit number.
pub open spec fn as_double(n: nat) -> nat {
    let k = surplus_bits(n, 11);
    nearest(n, pow2(k)) * pow2(k)
}

/// The double nearest to a 64-bit number.
pub(crate) fn to_double(n: u64) -> (r: u128)
    ensures
        r == as_double(n as nat),
        r <= 0x2_0000_0000_0000_0000,
        n >= 1_000_000 ==> r >= 1_000_000,
{
    let mut k: u32 = 0;
    let mut unit: u128 = 1;
    let mut left: u64 = n;
    proof {
        lemma2_to64();
        lemma2_to64_rest();
    }
    while k < 11 && left >= 0x20_0000_0000_0000
        invariant
            k <= 11,
            unit == pow2(k as nat),
            1 <= unit <= 2048,
            surplus_bits(n as nat, 11) == k + surplus_bits(left as nat, (11 - k) as nat),
            pow2(53) == 0x20_0000_0000_0000,
            pow2(11) == 2048,
            k == 0 ==> left == n,
            k > 0 ==> n >= 0x20_0000_0000_0000,
        decreases 11 - k,
    {
        proof {
            lemma_pow2_unfold((k + 1) as nat);
            if k + 1 < 11 {
                lemma_pow2_strictly_increases((k + 1) as nat, 11);
            }
        }
        left = left / 2;
        unit = unit * 2;
        k = k + 1;
    }
    assert(surplus_bits(n as nat, 11) == k);
    let m: u128 = divide_to_nearest(n as u128, unit);
    proof {
        let nn = n as int;
        let u = unit as int;
        let q = nn / u;
        assert(m <= q + 1 && m >= q);
        assert(q * u <= nn && nn < q * u + u) by (nonlinear_arith)
            requires
                u > 0,
                q == nn / u,
        ;
        assert(m * u <= nn + u) by (nonlinear_arith)
            requires
                m <= q + 1,
                q * u <= nn,
                u > 0,
        ;
        assert(m * u > nn - u) by (nonlinear_arith)
            requires
                m >= q,
                nn < q * u + u,
                u > 0,
        ;
        if k == 0 {
            assert(nn % 1 == 0);
            assert(m == nn);
            assert(m * u == nn) by (nonlinear_arith)
                requires
                    m == nn,
                    u == 1,
            ;
        }
    }
    m * unit
}

/// How many times `num` can be doubled, out of at most `most`, while `num / den` stays below
/// `2^53`.
pub open spec fn mantissa_shift(num: nat, den: nat, most: nat) -> nat
    decreases most,
{
    if most == 0 || 2 * num >= pow2(53) * den {
        0
    } else {
        1 + mantissa_shift(2 * num, den, (most - 1) as nat)
    }
}

/// The digits of `tenths / 10`, with one decimal.
pub open spec fn with_one_decimal(tenths: nat) -> Seq<char> {
    decimal(tenths / 10) + seq!['.', digit_char(tenths % 10)]
}

/// The digits of `hundredths / 100`, with two decimals.
pub open spec fn with_two_decimals(hundredths: nat) -> Seq<char> {
    decimal(hundredths / 100) + seq![
        '.',
        digit_char(hundredths / 10 % 10),
        digit_char(hundredths % 10),
    ]
}

/// `n` in millions with one decimal, computed in doubles: `n` is rounded to a double, so is its
/// quotient by a million, and the decimals are rounded off that.
pub open spec fn millions(n: nat) -> Seq<char> {
    let a = as_double(n);
    let s = mantissa_shift(a, 1_000_000, 52);
    let mantissa = nearest(a * pow2(s), 1_000_000);
    with_one_decimal(nearest(mantissa * 10, pow2(s)))
}

/// `n / unit` with two decimals, computed in doubles. The quotient of a double by a power of
/// two is exact.
pub open spec fn in_units(n: nat, unit: nat) -> Seq<char> {
    with_two_decimals(nearest(as_double(n) * 100, unit))
}

/// Decimal digits with one decimal.
fn one_decimal_text(tenths: u64) -> (r: String)
    ensures
        r@ == with_one_decimal(tenths as nat),
{
    let mut out: String = decimal_text(tenths / 10);
    out.push('.');
    out.push((48 + (tenths % 10) as u8) as char);
    assert(out@ =~= with_one_decimal(tenths as nat));
    out
}

/// Decimal digits with two decimals.
fn two_decimals_text(hundredths: u64) -> (r: String)
    ensures
        r@ == with_two_decimals(hundredths as nat),
{
    let mut out: String = decimal_text(hundredths / 100);
    out.push('.');
    out.push((48 + (hundredths / 10 % 10) as u8) as char);
    out.push((48 + (hundredths % 10) as u8) as char);
    assert(out@ =~= with_two_decimals(hundredths as nat));
    out
}

proof fn lemma_nearest_bound(num: nat, den: nat)
    requires
        den > 0,
    ensures
        nearest(num, den) <= num / den + 1,
        num % den == 0 ==> nearest(num, den) == num / den,
{
}

/// `n` in millions with one decimal.
pub(crate) fn millions_text(n: u64) -> (r: String)
    requires
        n >= 1_000_000,
    ensures
        r@ == millions(n as nat),
{
    let a: u128 = to_double(n);
    proof {
        lemma2_to64();
        lemma2_to64_rest();
    }
    let limit: u128 = 0x20_0000_0000_0000 * 1_000_000;
    let mut s: u32 = 0;
    let mut scaled: u128 = a;
    let mut unit: u128 = 1;
    assert(a * pow2(0) == a);
    while s < 52 && 2 * scaled < limit
        invariant
            s <= 52,
            limit == 0x20_0000_0000_0000 * 1_000_000,
            pow2(53) == 0x20_0000_0000_0000,
            pow2(52) == 0x10_0000_0000_0000,
            unit == pow2(s as nat),
            1 <= unit <= 0x10_0000_0000_0000,
            scaled == a * pow2(s as nat),
            scaled == a * unit,
            a == as_double(n as nat),
            1_000_000 <= a <= 0x2_0000_0000_0000_0000,
            s == 0 ==> scaled == a,
            s > 0 ==> scaled < limit,
            mantissa_shift(a as nat, 1_000_000, 52) == s + mantissa_shift(
                scaled as nat,
                1_000_000,
                (52 - s) as nat,
            ),
        decreases 52 - s,
    {
        proof {
            lemma_pow2_unfold((s + 1) as nat);
            if s + 1 < 52 {
                lemma_pow2_strictly_increases((s + 1) as nat, 52);
            }
            assert(a * (2 * unit) == 2 * (a * unit)) by (nonlinear_arith);
        }
        scaled = 2 * scaled;
        unit = unit * 2;
        s = s + 1;
    }
    assert(mantissa_shift(a as nat, 1_000_000, 52) == s);
    proof {
        lemma_nearest_bound(scaled as nat, 1_000_000);
    }
    let mantissa: u128 = divide_to_nearest(scaled, 1_000_000);
    proof {
        lemma_nearest_bound((mantissa * 10) as nat, unit as nat);
        if s == 0 {
            assert(scaled as int / 1_000_000 <= 0x2_0000_0000_0000_0000int / 1_000_000);
            assert((mantissa * 10) / 1 == mantissa * 10);
        } else {
            assert(mantissa <= 0x20_0000_0000_0000 + 1);
            assert((mantissa * 10) / (unit as int) <= mantissa * 10) by (nonlinear_arith)
                requires
                    unit >= 1,
                    mantissa >= 0,
            ;
        }
    }
    let tenths: u128 = divide_to_nearest(mantissa * 10, unit);
    one_decimal_text(tenths as u64)
}

/// `n / unit` with two decimals, for a unit that is a power of two.
pub(crate) fn units_text(n: u64, unit: u64) -> (r: String)
    requires
        unit >= 1024,
    ensures
        r@ == in_units(n as nat, unit as nat),
{
    let a: u128 = to_double(n);
    proof {
        lemma_nearest_bound((a * 100) as nat, unit as nat);
        assert((a * 100) / (unit as int) <= (a * 100) / 1024) by (nonlinear_arith)
            requires
                unit >= 1024,
                a >= 0,
        ;
    }
    let hundredths: u128 = divide_to_nearest(a * 100, unit as u128);
    two_decimals_text(hundredths as u64)
}

/// Rounding goes to a nearest whole number, at most half away, and leaves a whole number alone.
pub proof fn law_rounding_is_to_a_nearest(num: nat, den: nat)
    requires
        den > 0,
    ensures
        2 * (nearest(num, den) * den) <= 2 * num + den,
        2 * num <= 2 * (nearest(num, den) * den) + den,
        num % den == 0 ==> nearest(num, den) == num / den,
{
    let q = num / den;
    let r = num % den;
    assert(q * den + r == num && r < den) by (nonlinear_arith)
        requires
            q == num / den,
            r == num % den,
            den > 0,
    ;
    assert((q + 1) * den == q * den + den) by (nonlinear_arith);
}

/// A number that a double holds exactly is shown in units of a power of two by its whole part
/// and two decimals: a whole number of units shows no hundredths.
pub proof fn law_whole_units_are_shown_whole(count: nat, unit: nat)
    requires
        unit > 0,
        count * unit < pow2(53),
    ensures
        in_units(count * unit, unit) == decimal(count) + seq!['.', '0', '0'],
{
    let n = count * unit;
    assert(surplus_bits(n, 11) == 0);
    lemma2_to64();
    assert(pow2(0) == 1);
    assert(nearest(n, 1) == n);
    assert(as_double(n) == n);
    let h = count * 100;
    assert((n * 100) == h * unit) by (nonlinear_arith)
        requires
            n == count * unit,
            h == count * 100,
    ;
    assert((h * unit) % unit == 0 && (h * unit) / unit == h) by (nonlinear_arith)
        requires
            unit > 0,
    ;
    assert(nearest(n * 100, unit) == h);
    assert(h / 100 == count && h / 10 % 10 == 0 && h % 10 == 0) by (nonlinear_arith)
        requires
            h == count * 100,
    ;
    assert(digit_char(0) == '0');
    assert(with_two_decimals(h) =~= decimal(count) + seq!['.', '0', '0']);
}

} // verus!
