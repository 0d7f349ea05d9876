//! Exact integer models of the 64-bit binary floating-point operations
//! the library reproduces: an integer converted to a double, a quotient of
//! two integers rounded to the nearest double, the product of an integer
//! and a double, and a double rounded to the nearest integer. Rounding to a
//! double keeps 53 significant bits, halves to the even neighbour.
use vstd::prelude::*;

verus! {

/// `2^e`.
pub open spec fn pow_two(e: nat) -> nat
    decreases e,
{
    if e == 0 {
        1
    } else {
        2 * pow_two((e - 1) as nat)
    }
}

/// Number of binary digits of `n` (0 for 0).
pub open spec fn bit_length(n: nat) -> nat
    decreases n,
{
    if n == 0 {
        0
    } else {
        1 + bit_length(n / 2)
    }
}

/// `a / b` rounded to the nearest whole number, halves to the even neighbour.
pub open spec fn round_half_even_div(a: nat, b: nat) -> nat {
    let q = a / b;
    let r = a % b;
    if 2 * r > b {
        q + 1
    } else if 2 * r < b {
        q
    } else if q % 2 == 0 {
        q
    } else {
        q + 1
    }
}

/// The value of `n` converted to a 64-bit float: `n` rounded to 53
/// significant bits, halves to even.
pub open spec fn nearest_double(n: nat) -> nat {
    if bit_length(n) <= 53 {
        n
    } else {
        let m = pow_two((bit_length(n) - 53) as nat);
        round_half_even_div(n, m) * m
    }
}

pub proof fn lemma_bit_length_bound(n: nat, k: nat)
    requires
        n < pow_two(k),
    ensures
        bit_length(n) <= k,
    decreases k,
{
    if n > 0 && k > 0 {
        lemma_bit_length_bound(n / 2, (k - 1) as nat);
    }
}

pub proof fn lemma_pow_two_monotone(k: nat, j: nat)
    requires
        k <= j,
    ensures
        1 <= pow_two(k) <= pow_two(j),
    decreases j,
{
    if j > k {
        lemma_pow_two_monotone(k, (j - 1) as nat);
    } else if k > 0 {
        lemma_pow_two_monotone((k - 1) as nat, (k - 1) as nat);
    }
}

pub proof fn lemma_pow_two_facts(k: nat)
    ensures
        pow_two(k) >= 1,
        k <= 11 ==> pow_two(k) <= 2048,
{
    lemma_pow_two_monotone(k, k);
    if k <= 11 {
        lemma_pow_two_monotone(k, 11);
        reveal_with_fuel(pow_two, 12);
    }
}

pub proof fn lemma_pow_two_64()
    ensures
        pow_two(64) == 0x1_0000_0000_0000_0000,
{
    reveal_with_fuel(pow_two, 65);
}

pub(crate) fn round_half_even_u128(a: u128, b: u128) -> (r: u128)
    requires
        b > 0,
        a <= 0x1000_0000_0000_0000_0000_0000_0000,
    ensures
        r == round_half_even_div(a as nat, b as nat),
{
    let q = a / b;
    let r = a % b;
    assert(q <= a) by (nonlinear_arith)
        requires
            q == a / b,
            b > 0,
    ;
    if r > b - r {
        q + 1
    } else if r < b - r {
        q
    } else if q % 2 == 0 {
        q
    } else {
        q + 1
    }
}

/// The 64-bit float value of `n`, as an integer.
pub(crate) fn nearest_double_u64(n: u64) -> (r: u128)
    ensures
        r == nearest_double(n as nat),
        r <= 0x1_0000_0000_0000_0800,
{
    let mut t = n;
    let mut len: u64 = 0;
    proof {
        lemma_pow_two_64();
        lemma_bit_length_bound(n as nat, 64);
    }
    while t > 0
        invariant
            bit_length(n as nat) == len + bit_length(t as nat),
            bit_length(n as nat) <= 64,
        decreases t,
    {
        t = t / 2;
        len = len + 1;
    }
    if len <= 53 {
        return n as u128;
    }
    let shift = len - 53;
    let mut m: u128 = 1;
    let mut k: u64 = 0;
    while k < shift
        invariant
            k <= shift,
            shift <= 11,
            m == pow_two(k as nat),
            m <= 2048,
        decreases shift - k,
    {
        proof {
            lemma_pow_two_facts((k + 1) as nat);
        }
        m = m * 2;
        k = k + 1;
    }
    proof {
        lemma_pow_two_facts(k as nat);
    }
    let nn = n as u128;
    let q = round_half_even_u128(nn, m);
    assert(q <= nn / m + 1);
    assert((nn / m) * m <= nn) by (nonlinear_arith)
        requires
            m >= 1,
    ;
    assert(q * m <= 0x1_0000_0000_0000_0800) by (nonlinear_arith)
        requires
            q <= nn / m + 1,
            (nn / m) * m <= nn,
            nn < 0x1_0000_0000_0000_0000,
            m >= 1,
            m <= 2048,
    ;
    q * m
}


/// A non-negative double held exactly as `mantissa / 2^shift`.
pub type Dyadic = (nat, nat);

/// `floor(log2(p / q))` for positive `p` and `q`.
pub open spec fn top_exponent(p: nat, q: nat) -> int {
    let a = bit_length(p);
    let b = bit_length(q);
    if p * pow_two(b) >= q * pow_two(a) {
        a - b
    } else {
        a - b - 1
    }
}

/// The double nearest to `p / q` (for `p`, `q` below `2^32`, `q > 0`):
/// 53 significant bits, halves to even.
pub open spec fn quotient_double(p: nat, q: nat) -> Dyadic {
    if p == 0 {
        (0, 0)
    } else {
        let s = (52 - top_exponent(p, q)) as nat;
        (round_half_even_div(p * pow_two(s), q), s)
    }
}

/// The double nearest to `v` times the double `d`.
pub open spec fn product_double(v: nat, d: Dyadic) -> Dyadic {
    (nearest_double(v * d.0), d.1)
}

/// A double rounded to the nearest integer, halves away from zero.
pub open spec fn round_to_integer(d: Dyadic) -> nat {
    (2 * d.0 + pow_two(d.1)) / (2 * pow_two(d.1))
}

/// `x <= y` for two doubles.
pub open spec fn dyadic_le(x: Dyadic, y: Dyadic) -> bool {
    x.0 * pow_two(y.1) <= y.0 * pow_two(x.1)
}

/// A whole number converted to `u32` the way a cast from a double
/// saturates.
pub open spec fn saturate_u32(n: nat) -> nat {
    if n > u32::MAX {
        u32::MAX as nat
    } else {
        n
    }
}

/// The side `v` scaled by the double `d` as the fitting computes it: the
/// product rounded to a double, then to the nearest integer, then cast.
pub open spec fn scaled_side(v: nat, d: Dyadic) -> nat {
    saturate_u32(round_to_integer(product_double(v, d)))
}

pub proof fn lemma_pow_two_adds(a: nat, b: nat)
    ensures
        pow_two(a + b) == pow_two(a) * pow_two(b),
    decreases a,
{
    if a > 0 {
        lemma_pow_two_adds((a - 1) as nat, b);
        let x = pow_two((a - 1) as nat);
        let y = pow_two(b);
        assert(pow_two(a + b) == 2 * pow_two((a - 1 + b) as nat));
        assert(pow_two(a) == 2 * x);
        assert(2 * (x * y) == (2 * x) * y) by (nonlinear_arith);
        assert(pow_two(a + b) == pow_two(a) * pow_two(b));
    } else {
        assert(pow_two(0) == 1);
        assert(a + b == b);
        assert(pow_two(a) * pow_two(b) == pow_two(b));
    }
}

pub proof fn lemma_bit_length_window(n: nat)
    requires
        n > 0,
    ensures
        bit_length(n) >= 1,
        pow_two((bit_length(n) - 1) as nat) <= n < pow_two(bit_length(n)),
    decreases n,
{
    if n >= 2 {
        lemma_bit_length_window(n / 2);
        let k = bit_length(n / 2);
        assert(bit_length(n) == k + 1);
        assert(pow_two(k + 1) == 2 * pow_two(k));
        if k >= 1 {
            assert(pow_two(k) == 2 * pow_two((k - 1) as nat));
        }
    } else {
        assert(bit_length(n) == 1) by {
            reveal_with_fuel(bit_length, 2);
        }
        reveal_with_fuel(pow_two, 2);
    }
}

/// The quotient's scaled numerator stays below `2^53` times the divisor.
proof fn lemma_quotient_window(p: nat, q: nat)
    requires
        0 < p < pow_two(32),
        0 < q < pow_two(32),
    ensures
        -32 <= top_exponent(p, q) <= 31,
        p * pow_two((52 - top_exponent(p, q)) as nat) < q * pow_two(53),
{
    lemma_bit_length_window(p);
    lemma_bit_length_window(q);
    let a = bit_length(p);
    let b = bit_length(q);
    lemma_bit_length_bound(p, 32);
    lemma_bit_length_bound(q, 32);
    let t = top_exponent(p, q);
    let s = (52 - t) as nat;
    if p * pow_two(b) >= q * pow_two(a) {
        // p < 2^a and q >= 2^(b-1), with s = 52 - a + b.
        lemma_pow_two_monotone(s, s);
        lemma_pow_two_adds(a, s);
        lemma_pow_two_adds((b - 1) as nat, 53);
        assert(a + s == 52 + b);
        assert((b - 1) + 53 == 52 + b);
        assert(p * pow_two(s) < pow_two(a) * pow_two(s)) by (nonlinear_arith)
            requires
                p < pow_two(a),
                pow_two(s) > 0,
        ;
        lemma_pow_two_monotone(s, s);
        assert(pow_two((b - 1) as nat) * pow_two(53) <= q * pow_two(53)) by (nonlinear_arith)
            requires
                pow_two((b - 1) as nat) <= q,
                pow_two(53) >= 0,
        ;
    } else {
        // s = 53 - a + b, so p * 2^s = p * 2^b * 2^(53 - a) < q * 2^a * 2^(53 - a).
        let r = (53 - a) as nat;
        lemma_pow_two_adds(b, r);
        lemma_pow_two_adds(a, r);
        assert(s == b + r);
        assert(a + r == 53);
        lemma_pow_two_monotone(r, r);
        assert(p * pow_two(b) * pow_two(r) < q * pow_two(a) * pow_two(r)) by (nonlinear_arith)
            requires
                p * pow_two(b) < q * pow_two(a),
                pow_two(r) > 0,
        ;
        assert(p * pow_two(s) == p * pow_two(b) * pow_two(r)) by (nonlinear_arith)
            requires
                pow_two(s) == pow_two(b) * pow_two(r),
        ;
        assert(q * pow_two(53) == q * pow_two(a) * pow_two(r)) by (nonlinear_arith)
            requires
                pow_two(53) == pow_two(a) * pow_two(r),
        ;
    }
}

/// `2^k` for `k` below 128.
fn pow_two_u128(k: u64) -> (r: u128)
    requires
        k < 128,
    ensures
        r == pow_two(k as nat),
{
    let mut m: u128 = 1;
    let mut i: u64 = 0;
    while i < k
        invariant
            i <= k,
            k < 128,
            m == pow_two(i as nat),
        decreases k - i,
    {
        proof {
            lemma_pow_two_adds(i as nat, 1);
            lemma_pow_two_adds(64, 63);
            lemma_pow_two_64();
            lemma_pow_two_monotone((i + 1) as nat, 127);
            reveal_with_fuel(pow_two, 2);
            assert(pow_two(63) == 0x8000_0000_0000_0000) by {
                lemma_pow_two_adds(63, 1);
                reveal_with_fuel(pow_two, 2);
            }
        }
        m = m * 2;
        i = i + 1;
    }
    m
}

/// The number of binary digits of `n`.
fn bits_u64(n: u64) -> (r: u64)
    ensures
        r == bit_length(n as nat),
        r <= 64,
{
    proof {
        lemma_pow_two_64();
        lemma_bit_length_bound(n as nat, 64);
    }
    let mut t = n;
    let mut len: u64 = 0;
    while t > 0
        invariant
            bit_length(n as nat) == len + bit_length(t as nat),
            bit_length(n as nat) <= 64,
        decreases t,
    {
        t = t / 2;
        len = len + 1;
    }
    len
}

/// The double nearest to `p / q`, as (mantissa, shift).
pub(crate) fn quotient_double_u32(p: u32, q: u32) -> (r: (u128, u64))
    requires
        q > 0,
    ensures
        (r.0 as nat, r.1 as nat) == quotient_double(p as nat, q as nat),
        r.0 <= 0x20_0000_0000_0000,
        r.1 <= 84,
        r.0 == 0 || r.1 >= 21,
{
    if p == 0 {
        return (0, 0);
    }
    proof {
        lemma_pow_two_adds(32, 32);
        lemma_pow_two_64();
        assert(pow_two(32) == 0x1_0000_0000) by {
            lemma_pow_two_monotone(32, 64);
            assert(pow_two(32) * pow_two(32) == 0x1_0000_0000_0000_0000);
            assert(pow_two(32) == 0x1_0000_0000) by (nonlinear_arith)
                requires
                    pow_two(32) * pow_two(32) == 0x1_0000_0000_0000_0000,
                    pow_two(32) >= 1,
            ;
        }
        lemma_quotient_window(p as nat, q as nat);
        lemma_bit_length_bound(p as nat, 32);
        lemma_bit_length_bound(q as nat, 32);
    }
    let a = bits_u64(p as u64);
    let b = bits_u64(q as u64);
    let pa = pow_two_u128(a);
    let pb = pow_two_u128(b);
    proof {
        lemma_pow_two_monotone(a as nat, 32);
        lemma_pow_two_monotone(b as nat, 32);
        assert((p as u128) * pb <= 0xffff_ffff * 0x1_0000_0000) by (nonlinear_arith)
            requires
                p <= 0xffff_ffff,
                pb <= 0x1_0000_0000,
        ;
        assert((q as u128) * pa <= 0xffff_ffff * 0x1_0000_0000) by (nonlinear_arith)
            requires
                q <= 0xffff_ffff,
                pa <= 0x1_0000_0000,
        ;
    }
    let top: i64 = if (p as u128) * pb >= (q as u128) * pa {
        a as i64 - b as i64
    } else {
        a as i64 - b as i64 - 1
    };
    let s = (52 - top) as u64;
    let ps = pow_two_u128(s);
    proof {
        lemma_pow_two_monotone(53, 53);
        assert(pow_two(53) == 0x20_0000_0000_0000) by {
            lemma_pow_two_adds(53, 11);
            assert(pow_two(11) == 2048) by {
                reveal_with_fuel(pow_two, 12);
            }
            assert(pow_two(53) * 2048 == 0x1_0000_0000_0000_0000);
            assert(pow_two(53) == 0x20_0000_0000_0000) by (nonlinear_arith)
                requires
                    pow_two(53) * 2048 == 0x1_0000_0000_0000_0000,
            ;
        }
        assert((p as u128) * ps < (q as u128) * 0x20_0000_0000_0000);
        assert((q as u128) * 0x20_0000_0000_0000 <= 0xffff_ffff * 0x20_0000_0000_0000) by (nonlinear_arith)
            requires
                q <= 0xffff_ffff,
        ;
    }
    let x = (p as u128) * ps;
    let m = round_half_even_u128(x, q as u128);
    proof {
        let qq = x / (q as u128);
        assert(qq < 0x20_0000_0000_0000) by (nonlinear_arith)
            requires
                qq == x / (q as u128),
                x < (q as u128) * 0x20_0000_0000_0000,
                q > 0,
        ;
    }
    (m, s)
}

/// The double nearest to an integer below `2^100`, as an integer.
fn nearest_double_u128(n: u128) -> (r: u128)
    requires
        n < 0x10_0000_0000_0000_0000_0000_0000,
    ensures
        r == nearest_double(n as nat),
        r <= 0x10_0000_0000_0000_0000_0000_0000 + 0x1_0000_0000_0000,
{
    let mut t = n;
    let mut len: u64 = 0;
    proof {
        lemma_pow_two_adds(64, 36);
        lemma_pow_two_64();
        assert(pow_two(36) == 0x10_0000_0000) by {
            lemma_pow_two_adds(32, 4);
            lemma_pow_two_adds(32, 32);
            reveal_with_fuel(pow_two, 5);
            assert(pow_two(32) * pow_two(32) == 0x1_0000_0000_0000_0000);
            assert(pow_two(32) == 0x1_0000_0000) by (nonlinear_arith)
                requires
                    pow_two(32) * pow_two(32) == 0x1_0000_0000_0000_0000,
                    pow_two(32) >= 0,
            ;
        }
        lemma_bit_length_bound(n as nat, 100);
    }
    while t > 0
        invariant
            bit_length(n as nat) == len + bit_length(t as nat),
            bit_length(n as nat) <= 100,
        decreases t,
    {
        t = t / 2;
        len = len + 1;
    }
    if len <= 53 {
        return n;
    }
    let shift = len - 53;
    let m = pow_two_u128(shift);
    proof {
        lemma_pow_two_monotone(shift as nat, 47);
        lemma_pow_two_adds(32, 15);
        assert(pow_two(47) == 0x8000_0000_0000) by {
            lemma_pow_two_adds(32, 32);
            lemma_pow_two_64();
            assert(pow_two(32) * pow_two(32) == 0x1_0000_0000_0000_0000);
            assert(pow_two(32) == 0x1_0000_0000) by (nonlinear_arith)
                requires
                    pow_two(32) * pow_two(32) == 0x1_0000_0000_0000_0000,
                    pow_two(32) >= 0,
            ;
            assert(pow_two(15) == 0x8000) by {
                reveal_with_fuel(pow_two, 16);
            }
        }
    }
    let q = round_half_even_u128(n, m);
    assert(q <= n / m + 1);
    assert((n / m) * m <= n) by (nonlinear_arith)
        requires
            m >= 1,
    ;
    assert(q * m <= n + m) by (nonlinear_arith)
        requires
            q <= n / m + 1,
            (n / m) * m <= n,
            m >= 1,
    ;
    q * m
}

/// A side scaled by a double, as the fitting computes it.
pub(crate) fn scaled_side_u32(v: u32, d: (u128, u64)) -> (r: u32)
    requires
        d.0 <= 0x20_0000_0000_0000,
        d.1 <= 84,
    ensures
        r as nat == scaled_side(v as nat, (d.0 as nat, d.1 as nat)),
{
    assert((v as u128) * d.0 <= 0xffff_ffff * 0x20_0000_0000_0000) by (nonlinear_arith)
        requires
            v <= 0xffff_ffff,
            d.0 <= 0x20_0000_0000_0000,
    ;
    let n = nearest_double_u128((v as u128) * d.0);
    let unit = pow_two_u128(d.1);
    proof {
        lemma_pow_two_monotone(d.1 as nat, 84);
        lemma_pow_two_adds(64, 20);
        lemma_pow_two_64();
        assert(pow_two(20) == 0x10_0000) by {
            reveal_with_fuel(pow_two, 21);
        }
    }
    let k = (2 * n + unit) / (2 * unit);
    if k > 0xffff_ffff {
        0xffff_ffff
    } else {
        k as u32
    }
}

/// `x <= y` for two doubles whose shifts are at most 84, and at least 21
/// when the mantissa is not zero.
pub(crate) fn dyadic_le_u128(x: (u128, u64), y: (u128, u64)) -> (r: bool)
    requires
        x.0 <= 0x20_0000_0000_0000,
        y.0 <= 0x20_0000_0000_0000,
        x.1 <= 84,
        y.1 <= 84,
        x.0 == 0 || x.1 >= 21,
        y.0 == 0 || y.1 >= 21,
    ensures
        r == dyadic_le((x.0 as nat, x.1 as nat), (y.0 as nat, y.1 as nat)),
{
    proof {
        lemma_pow_two_monotone(0, x.1 as nat);
        lemma_pow_two_monotone(0, y.1 as nat);
    }
    if x.0 == 0 {
        return true;
    }
    if y.0 == 0 {
        assert(x.0 * pow_two(y.1 as nat) > 0) by (nonlinear_arith)
            requires
                x.0 > 0,
                pow_two(y.1 as nat) >= 1,
        ;
        return false;
    }
    if x.1 <= y.1 {
        let d = y.1 - x.1;
        let f = pow_two_u128(d);
        proof {
            lemma_dyadic_scale(x.0 as nat, y.0 as nat, d as nat, x.1 as nat, f as nat);
        }
        x.0 * f <= y.0
    } else {
        let d = x.1 - y.1;
        let f = pow_two_u128(d);
        proof {
            lemma_dyadic_scale(y.0 as nat, x.0 as nat, d as nat, y.1 as nat, f as nat);
        }
        x.0 <= y.0 * f
    }
}

/// Comparing `a / 2^t` with `b / 2^(t + d)` by scaling `a` by `2^d`.
proof fn lemma_dyadic_scale(a: nat, b: nat, d: nat, t: nat, f: nat)
    requires
        a <= 0x20_0000_0000_0000,
        d <= 63,
        f == pow_two(d),
    ensures
        a * f <= 0x20_0000_0000_0000 * 0x8000_0000_0000_0000,
        (a * pow_two(d + t) <= b * pow_two(t)) == (a * f <= b),
        (b * pow_two(t) <= a * pow_two(d + t)) == (b <= a * f),
{
    lemma_pow_two_adds(d, t);
    lemma_pow_two_monotone(d, 63);
    lemma_pow_two_monotone(0, t);
    assert(pow_two(63) == 0x8000_0000_0000_0000) by {
        lemma_pow_two_adds(32, 31);
        lemma_pow_two_adds(32, 32);
        lemma_pow_two_adds(31, 1);
        lemma_pow_two_64();
        reveal_with_fuel(pow_two, 2);
        assert(pow_two(32) * pow_two(32) == 0x1_0000_0000_0000_0000);
        assert(pow_two(32) == 0x1_0000_0000) by (nonlinear_arith)
            requires
                pow_two(32) * pow_two(32) == 0x1_0000_0000_0000_0000,
                pow_two(32) >= 0,
        ;
        assert(pow_two(31) * 2 == 0x1_0000_0000);
    }
    let g = pow_two(t);
    assert(a * f <= 0x20_0000_0000_0000 * 0x8000_0000_0000_0000) by (nonlinear_arith)
        requires
            a <= 0x20_0000_0000_0000,
            f <= 0x8000_0000_0000_0000,
    ;
    assert(a * pow_two(d + t) == (a * f) * g) by (nonlinear_arith)
        requires
            pow_two(d + t) == f * g,
    ;
    assert(((a * f) * g <= b * g) == (a * f <= b)) by (nonlinear_arith)
        requires
            g >= 1,
    ;
    assert((b * g <= (a * f) * g) == (b <= a * f)) by (nonlinear_arith)
        requires
            g >= 1,
    ;
}

} // verus!
