//! Fixed-point decimal text of the floating-point figures in reports,
//! computed exactly: the value a float conversion or quotient holds is
//! modelled by the integer rounding of `rounding`, and printing with a
//! fixed number of decimals rounds the exact value, ties to even.

use vstd::prelude::*;
use crate::utils::rounding::{two_pow, round_to_f32, round_to_f64, round_to_f32_exec, round_to_f64_exec,
    lemma_two_pow_pos, lemma_two_pow_mono, lemma_two_pow_89, lemma_round_pos};
use crate::utils::text::{decimal, decimal_padded, digit, digit_char, push_char, push_decimal};

verus! {

/// `a / b` rounded to the nearest integer, ties to even.
pub open spec fn div_round_even(a: nat, b: nat) -> nat {
    let q = a / b;
    let r = a % b;
    if 2 * r > b || (2 * r == b && q % 2 == 1) {
        q + 1
    } else {
        q
    }
}

/// `h / 100` written with two decimals.
pub open spec fn fixed_2(h: nat) -> Seq<char> {
    decimal(h / 100) + "."@ + decimal_padded(h % 100, 2)
}

/// `t / 10` written with one decimal.
pub open spec fn fixed_1(t: nat) -> Seq<char> {
    decimal(t / 10) + "."@ + decimal(t % 10)
}

/// `bytes` converted to double precision, divided by 2^20 and written with
/// two decimals: a byte count in MiB, as the reports print it.
pub open spec fn mib_text(bytes: nat) -> Seq<char> {
    fixed_2(div_round_even(round_to_f64(bytes) * 100, 1048576))
}

/// Smallest `s`, from `s` on and below 128, with `a * 2^s >= 2^23 * b`: the
/// shift that brings the quotient `a / b` (at most 1) to 24 integer bits.
pub open spec fn quotient_shift(a: nat, b: nat, s: nat) -> nat
    decreases 128 - s,
{
    if s >= 128 || a * two_pow(s) >= 8388608 * b {
        s
    } else {
        quotient_shift(a, b, s + 1)
    }
}

/// `(a as f32 / t as f32) * 100.0` written with one decimal, for
/// `a <= t`: the single-precision quotient is `m / 2^s` with `m` the
/// rounded 24-bit significand, and the product by 100 is rounded to 24
/// bits again. A zero total gives "NaN" (0 / 0).
pub open spec fn percent_text(a: nat, t: nat) -> Seq<char> {
    if t == 0 {
        "NaN"@
    } else if a == 0 {
        "0.0"@
    } else {
        let ra = round_to_f32(a);
        let rt = round_to_f32(t);
        let s = quotient_shift(ra, rt, 0);
        let m = div_round_even(ra * two_pow(s), rt);
        fixed_1(div_round_even(round_to_f32(m * 100) * 10, two_pow(s)))
    }
}

/// Computes `div_round_even(a, b)`.
pub fn div_round_even_exec(a: u128, b: u128) -> (r: u128)
    requires
        0 < b < 0x8000_0000_0000_0000_0000_0000_0000_0000,
    ensures
        r == div_round_even(a as nat, b as nat),
        r <= a / b + 1,
{
    let q = a / b;
    let rem = a % b;
    if 2 * rem > b || (2 * rem == b && q % 2 == 1) {
        assert(q <= a / 2) by (nonlinear_arith)
            requires q == a / b, b >= 2;
        q + 1
    } else {
        q
    }
}

proof fn lemma_decimal_two_digits(n: nat)
    requires
        10 <= n < 100,
    ensures
        decimal(n) == seq![digit_char(n / 10), digit_char(n % 10)],
{
    assert(decimal(n / 10) == seq![digit_char(n / 10)]);
}

/// Appends `fixed_2(h)`.
pub fn push_fixed_2(s: &mut String, h: u128)
    ensures
        final(s)@ == old(s)@ + fixed_2(h as nat),
{
    push_decimal(s, h / 100);
    push_char(s, '.');
    let f = (h % 100) as u64;
    proof {
        reveal_with_fuel(decimal_padded, 3);
    }
    if f < 10 {
        push_char(s, '0');
        push_char(s, digit(f));
        proof {
            assert(decimal(f as nat) == seq![digit_char(f as nat)]);
            assert(decimal_padded(f as nat, 1) == decimal(f as nat));
            assert(decimal_padded(f as nat, 2) =~= seq!['0'] + decimal(f as nat));
        }
    } else {
        push_char(s, digit(f / 10));
        push_char(s, digit(f % 10));
        proof {
            lemma_decimal_two_digits(f as nat);
            assert(decimal_padded(f as nat, 2) == decimal(f as nat));
        }
    }
    proof {
        reveal_strlit(".");
        assert(final(s)@ =~= old(s)@ + fixed_2(h as nat));
    }
}

/// Appends `mib_text(bytes)`.
pub fn push_mib(s: &mut String, bytes: u128)
    requires
        bytes <= 0x1_0000_0000_0000_0000,
    ensures
        final(s)@ == old(s)@ + mib_text(bytes as nat),
{
    let y = round_to_f64_exec(bytes);
    let h = div_round_even_exec(y * 100, 1048576);
    push_fixed_2(s, h);
}

proof fn lemma_two_pow_succ(s: nat)
    ensures
        two_pow(s + 1) == 2 * two_pow(s),
{
}

proof fn lemma_quotient_shift_found(a: nat, b: nat, s: nat, k: nat)
    requires
        s <= k < 128,
        a * two_pow(k) >= 8388608 * b,
        forall|j: nat| s <= j < k ==> #[trigger] (a * two_pow(j)) < 8388608 * b,
    ensures
        quotient_shift(a, b, s) == k,
    decreases k - s,
{
    if s < k {
        assert(a * two_pow(s) < 8388608 * b);
        lemma_quotient_shift_found(a, b, s + 1, k);
    }
}

/// Appends `percent_text(a, t)`.
pub fn push_percent(s: &mut String, a: u128, t: u128)
    requires
        a <= t <= 0x1_0000_0000_0000_0000,
    ensures
        final(s)@ == old(s)@ + percent_text(a as nat, t as nat),
{
    if t == 0 {
        s.append("NaN");
        return;
    }
    if a == 0 {
        s.append("0.0");
        return;
    }
    let ra = round_to_f32_exec(a);
    let rt = round_to_f32_exec(t);
    assert(ra >= 1 && rt >= 1) by {
        lemma_round_pos(a as nat, 24);
        lemma_round_pos(t as nat, 24);
    }
    let mut sh: u32 = 0;
    let mut p: u128 = 1;
    assert(ra * p == ra) by (nonlinear_arith)
        requires p == 1;
    while ra * p < 8388608 * rt
        invariant
            1 <= ra <= 2 * 0x1_0000_0000_0000_0000,
            1 <= rt <= 2 * 0x1_0000_0000_0000_0000,
            p == two_pow(sh as nat),
            1 <= p < 0x200_0000_0000_0000_0000_0000,
            ra * p <= 0x200_0000_0000_0000_0000_0000,
            sh > 0 ==> ra * p < 16777216 * rt,
            sh < 128,
            forall|j: nat| j < sh ==> #[trigger] (ra * two_pow(j)) < 8388608 * rt,
        decreases 128 - sh,
    {
        proof {
            lemma_two_pow_succ(sh as nat);
            assert(ra * two_pow(sh as nat) < 8388608 * rt);
            assert(ra * (p * 2) == 2 * (ra * p)) by (nonlinear_arith);
            assert(ra * p >= 1) by (nonlinear_arith)
                requires ra >= 1, p >= 1;
            assert(p < 8388608 * rt) by (nonlinear_arith)
                requires ra >= 1, ra * p < 8388608 * rt;
            lemma_two_pow_89();
            if sh >= 89 {
                lemma_two_pow_mono(89, sh as nat);
            }
        }
        let ghost old_p = p;
        p = p * 2;
        sh = sh + 1;
        assert(ra * p == 2 * (ra * old_p)) by (nonlinear_arith)
            requires p == old_p * 2;

    }
    proof {
        lemma_quotient_shift_found(ra as nat, rt as nat, 0, sh as nat);
    }
    proof {
        lemma_two_pow_pos(sh as nat);
    }
    let m = div_round_even_exec(ra * p, rt);
    assert(m <= 2 * 0x1_0000_0000_0000_0000 + 1) by (nonlinear_arith)
        requires
            m <= (ra * p) / (rt as int) + 1,
            sh > 0 ==> ra * p < 16777216 * rt,
            sh == 0 ==> p == 1,
            ra <= 2 * 0x1_0000_0000_0000_0000,
            rt >= 1;
    let m2 = round_to_f32_exec(m * 100);
    let tenths = div_round_even_exec(m2 * 10, p);
    push_decimal(s, tenths / 10);
    push_char(s, '.');
    push_char(s, digit((tenths % 10) as u64));
    proof {
        reveal_strlit(".");
        assert(decimal((tenths % 10) as nat) == seq![digit_char((tenths % 10) as nat)]);
        assert(final(s)@ =~= old(s)@ + percent_text(a as nat, t as nat));
    }
}

} // verus!
