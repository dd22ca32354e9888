//! Exact integer model of the binary floating-point rounding that the
//! monitors' and storages' figures go through: an integer converted to a
//! format with a `p`-bit significand (24 for single, 53 for double
//! precision) is rounded to the nearest representable value, ties to even.

use vstd::prelude::*;

verus! {

/// `2^k`.
pub open spec fn two_pow(k: nat) -> nat
    decreases k,
{
    if k == 0 {
        1
    } else {
        2 * two_pow((k - 1) as nat)
    }
}

/// Number of binary digits of `n` (0 for 0).
pub open spec fn bit_len(n: nat) -> nat
    decreases n,
{
    if n == 0 {
        0
    } else {
        1 + bit_len(n / 2)
    }
}

/// `n` rounded to `bits` significant bits, ties to even.
pub open spec fn round_to_precision(n: nat, bits: nat) -> nat {
    let b = bit_len(n);
    if b <= bits {
        n
    } else {
        let p = two_pow((b - bits) as nat);
        let q = n / p;
        let r = n % p;
        let half = p / 2;
        (if r > half || (r == half && q % 2 == 1) { q + 1 } else { q }) * p
    }
}

/// The value of `n` as a single-precision number.
pub open spec fn round_to_f32(n: nat) -> nat {
    round_to_precision(n, 24)
}

/// The value of `n` as a double-precision number.
pub open spec fn round_to_f64(n: nat) -> nat {
    round_to_precision(n, 53)
}

pub proof fn lemma_two_pow_pos(k: nat)
    ensures
        two_pow(k) >= 1,
    decreases k,
{
    if k > 0 {
        lemma_two_pow_pos((k - 1) as nat);
    }
}

pub proof fn lemma_two_pow_mono(i: nat, j: nat)
    requires
        i <= j,
    ensures
        two_pow(i) <= two_pow(j),
    decreases j,
{
    if i < j {
        lemma_two_pow_mono(i, (j - 1) as nat);
        lemma_two_pow_pos((j - 1) as nat);
    }
}

/// `2^(bit_len(n) - 1) <= n < 2^bit_len(n)` for positive `n`.
pub proof fn lemma_bit_len_bounds(n: nat)
    ensures
        n < two_pow(bit_len(n)),
        n > 0 ==> two_pow((bit_len(n) - 1) as nat) <= n,
    decreases n,
{
    if n > 0 {
        lemma_bit_len_bounds(n / 2);
    }
}

/// `2^89`.
pub proof fn lemma_two_pow_89()
    ensures
        two_pow(89) == 0x200_0000_0000_0000_0000_0000nat,
{
    reveal_with_fuel(two_pow, 90);
}

/// Rounding keeps a positive number positive.
pub proof fn lemma_round_pos(n: nat, bits: nat)
    requires
        n >= 1,
        bits >= 1,
    ensures
        round_to_precision(n, bits) >= 1,
{
    let b = bit_len(n);
    if b > bits {
        let p = two_pow((b - bits) as nat);
        lemma_bit_len_bounds(n);
        lemma_two_pow_mono((b - bits) as nat, (b - 1) as nat);
        lemma_two_pow_pos((b - bits) as nat);
        assert(n / p >= 1) by (nonlinear_arith)
            requires p <= n, p >= 1;
        assert((n / p) * p >= 1) by (nonlinear_arith)
            requires n / p >= 1, p >= 1;
        assert((n / p + 1) * p >= 1) by (nonlinear_arith)
            requires n / p >= 1, p >= 1;
    }
}

proof fn lemma_two_pow_97()
    ensures
        two_pow(97) == 0x2_0000_0000_0000_0000_0000_0000nat,
{
    reveal_with_fuel(two_pow, 98);
}

/// A number below `2^j` has at most `j` binary digits.
pub proof fn lemma_bit_len_le(x: nat, j: nat)
    requires
        x < two_pow(j),
    ensures
        bit_len(x) <= j,
    decreases x,
{
    if x > 0 {
        if j == 0 {
            assert(false);
        } else {
            lemma_bit_len_le(x / 2, (j - 1) as nat);
        }
    }
}

/// Computes `round_to_f32(n)`.
pub fn round_to_f32_exec(n: u128) -> (r: u128)
    requires
        n <= 0x1_0000_0000_0000_0000_0000_0000,
    ensures
        r == round_to_f32(n as nat),
        r <= 2 * n,
{
    round_to_precision_exec(n, 24)
}

/// Computes `round_to_f64(n)`.
pub fn round_to_f64_exec(n: u128) -> (r: u128)
    requires
        n <= 0x1_0000_0000_0000_0000_0000_0000,
    ensures
        r == round_to_f64(n as nat),
        r <= 2 * n,
{
    round_to_precision_exec(n, 53)
}

/// Computes `round_to_precision(n, bits)`.
fn round_to_precision_exec(n: u128, bits: u32) -> (r: u128)
    requires
        n <= 0x1_0000_0000_0000_0000_0000_0000,
        1 <= bits <= 64,
    ensures
        r == round_to_precision(n as nat, bits as nat),
        r <= 2 * n,
{
    let mut b: u32 = 0;
    let mut m: u128 = n;
    proof {
        lemma_bit_len_bounds(n as nat);
        lemma_two_pow_97();
        lemma_bit_len_le(n as nat, 97);
    }
    while m > 0
        invariant
            bit_len(n as nat) == b + bit_len(m as nat),
            bit_len(n as nat) <= 97,
            m <= n,
        decreases m,
    {
        m = m / 2;
        b = b + 1;
    }
    if b <= bits {
        return n;
    }
    let k = b - bits;
    let mut p: u128 = 1;
    let mut i: u32 = 0;
    proof {
        lemma_bit_len_bounds(n as nat);
        lemma_two_pow_mono(k as nat, (b - 1) as nat);
    }
    while i < k
        invariant
            i <= k,
            k == b - bits,
            b == bit_len(n as nat),
            p == two_pow(i as nat),
            p >= 1,
            two_pow(k as nat) <= n,
        decreases k - i,
    {
        proof {
            lemma_two_pow_mono((i + 1) as nat, k as nat);
        }
        p = p * 2;
        i = i + 1;
    }
    let q = n / p;
    let rem = n % p;
    let half = p / 2;
    let q2 = if rem > half || (rem == half && q % 2 == 1) { q + 1 } else { q };
    proof {
        lemma_two_pow_pos(k as nat);
        assert(q * p <= n) by (nonlinear_arith)
            requires q == n / p, p >= 1;
        assert(q2 * p <= q * p + p) by (nonlinear_arith)
            requires q2 <= q + 1, p >= 1;
    }
    q2 * p
}

} // verus!
