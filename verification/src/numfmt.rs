//! Fixed-point rendering of ratios with one or two decimals, rounding the
//! exact value to the nearest representable decimal and ties to even.
use vstd::prelude::*;
use crate::strings::{dec_digits, digit_char, push_decimal};

verus! {

/// `n / d` rounded to the nearest integer, ties to the even neighbour.
pub open spec fn round_half_even_div(n: nat, d: nat) -> nat
    recommends
        d > 0,
{
    let q = n / d;
    let r = n % d;
    if 2 * r > d || (2 * r == d && q % 2 == 1) {
        q + 1
    } else {
        q
    }
}

/// `10^k`.
pub open spec fn pow10(k: nat) -> nat
    decreases k,
{
    if k == 0 {
        1
    } else {
        10 * pow10((k - 1) as nat)
    }
}

/// The `k` decimal digits of `f` (`f < 10^k`), with leading zeros.
pub open spec fn frac_digits(f: nat, k: nat) -> Seq<char>
    decreases k,
{
    if k == 0 {
        Seq::empty()
    } else {
        frac_digits(f / 10, (k - 1) as nat).push(digit_char(f % 10))
    }
}

/// `num / den` written with `k` decimals.
pub open spec fn fixed_point(num: nat, den: nat, k: nat) -> Seq<char> {
    let t = round_half_even_div(num * pow10(k), den);
    dec_digits(t / pow10(k)) + "."@ + frac_digits(t % pow10(k), k)
}

fn push_frac(out: &mut Vec<char>, f: u128, k: u32)
    requires
        k <= 2,
    ensures
        final(out)@ == old(out)@ + frac_digits(f as nat, k as nat),
    decreases k,
{
    if k > 0 {
        push_frac(out, f / 10, k - 1);
        let d: u8 = (f % 10) as u8;
        out.push((d + 48) as char);
    }
}

/// Appends `num / den` with `k` (1 or 2) decimals.
pub fn push_fixed_point(out: &mut Vec<char>, num: u64, den: u64, k: u32)
    requires
        den > 0,
        1 <= k <= 2,
    ensures
        final(out)@ == old(out)@ + fixed_point(num as nat, den as nat, k as nat),
{
    let p: u128 = if k == 1 { 10 } else { 100 };
    assert(p == pow10(k as nat)) by {
        reveal_with_fuel(pow10, 3);
    }
    let n: u128 = (num as u128) * p;
    let d: u128 = den as u128;
    let q: u128 = n / d;
    let r: u128 = n % d;
    let t: u128 = if 2 * r > d || (2 * r == d && q % 2 == 1) {
        q + 1
    } else {
        q
    };
    assert(t == round_half_even_div((num as nat) * pow10(k as nat), den as nat));
    assert(t / p <= u64::MAX) by (nonlinear_arith)
        requires
            t <= n / d + 1,
            n == (num as int) * p,
            d >= 1,
            p == 10 || p == 100,
            num <= u64::MAX,
    {
        assert(n / d <= n) by (nonlinear_arith) requires n >= 0, d >= 1;
    }
    push_decimal(out, (t / p) as u64);
    out.push('.');
    push_frac(out, t % p, k);
    proof {
        reveal_strlit(".");
    }
    assert(out@ =~= old(out)@ + fixed_point(num as nat, den as nat, k as nat));
}

} // verus!
