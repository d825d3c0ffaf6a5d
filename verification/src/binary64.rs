//! Exact models of the IEEE 754 binary64 (`f64`) roundings that the
//! library's formulas go through, and their computation on integers.
//!
//! A positive `f64` below 2^53 is written `(m, k)` for the value `m / 2^k`,
//! with a significand `m` of 53 bits (`2^52 <= m <= 2^53`, the upper end
//! where a rounding carried over); zero is `(0, 0)`.

use vstd::prelude::*;
use vstd::arithmetic::div_mod::{
    lemma_fundamental_div_mod, lemma_fundamental_div_mod_converse, lemma_mod_pos_bound,
};

verus! {

/// `2` to the power `e`.
pub open spec fn two_to(e: nat) -> nat
    decreases e,
{
    if e == 0 {
        1
    } else {
        2 * two_to((e - 1) as nat)
    }
}

/// `q` or `q + 1`, for a quotient `q` with remainder `r` by `d`: the nearest
/// integer to `q + r / d`, an exact half to the even one.
pub open spec fn round_parts(q: nat, r: nat, d: nat) -> nat {
    if 2 * r > d || (2 * r == d && q % 2 == 1) {
        q + 1
    } else {
        q
    }
}

/// `n / d` rounded to the nearest integer, an exact half to the even one.
pub open spec fn round_half_even(n: nat, d: nat) -> nat {
    round_parts(n / d, n % d, d)
}

/// The least 53-bit significand, `2^52`.
pub open spec fn min_significand() -> nat {
    0x10_0000_0000_0000
}

/// The least `u` from `from` up with `b < 2^(53 + u)`: the number of low
/// bits of `b` that an `f64` cannot hold.
pub open spec fn dropped_bits(b: nat, from: nat) -> nat
    decreases 64 - from,
{
    if from >= 64 || b < 2 * min_significand() * two_to(from) {
        from
    } else {
        dropped_bits(b, from + 1)
    }
}

/// `b as f64`: `b` rounded to 53 significant bits, an exact half to the
/// even significand.
pub open spec fn u64_as_f64(b: u64) -> nat {
    let u = dropped_bits(b as nat, 0);
    round_half_even(b as nat, two_to(u)) * two_to(u)
}

/// The least `k` from `from` up with `n * 2^k >= 2^52 * d`: the scale at
/// which `n / d` has a 53-bit integer part.
pub open spec fn f64_scale(n: nat, d: nat, from: nat) -> nat
    decreases 256 - from,
{
    if from >= 256 || n * two_to(from) >= min_significand() * d {
        from
    } else {
        f64_scale(n, d, from + 1)
    }
}

/// The `f64` nearest to `n / d` (a value below 2^53), an exact half to the
/// even significand, as `(m, k)`.
pub open spec fn f64_quotient(n: nat, d: nat) -> (nat, nat) {
    if n == 0 {
        (0, 0)
    } else {
        let k = f64_scale(n, d, 0);
        (round_half_even(n * two_to(k), d), k)
    }
}

pub proof fn lemma_two_to_positive(e: nat)
    ensures
        two_to(e) >= 1,
    decreases e,
{
    if e > 0 {
        lemma_two_to_positive((e - 1) as nat);
    }
}

pub proof fn lemma_two_to_monotone(a: nat, b: nat)
    requires
        a <= b,
    ensures
        two_to(a) <= two_to(b),
    decreases b - a,
{
    if a < b {
        lemma_two_to_monotone(a, (b - 1) as nat);
    }
}

pub proof fn lemma_two_to_add(a: nat, b: nat)
    ensures
        two_to(a + b) == two_to(a) * two_to(b),
    decreases b,
{
    if b > 0 {
        lemma_two_to_add(a, (b - 1) as nat);
        let x = two_to(a);
        let y = two_to((b - 1) as nat);
        assert(two_to(b) == 2 * y);
        assert(two_to((a + b) as nat) == 2 * two_to((a + b - 1) as nat));
        assert((a + b - 1) as nat == (a + (b - 1)) as nat);
        assert(2 * (x * y) == x * (2 * y)) by (nonlinear_arith);
    } else {
        assert(two_to(0) == 1);
        assert(two_to(a) * 1 == two_to(a));
    }
}

/// Splitting `n` as `q * d + r` gives the rounding from its parts.
pub proof fn lemma_round_from_parts(n: nat, d: nat, q: nat, r: nat)
    requires
        d > 0,
        r < d,
        n == q * d + r,
    ensures
        round_half_even(n, d) == round_parts(q, r, d),
{
    lemma_fundamental_div_mod_converse(n as int, d as int, q as int, r as int);
}

/// The rounding of a quotient does not change when both sides are scaled.
pub proof fn lemma_round_scaled(n: nat, d: nat, t: nat)
    requires
        d > 0,
        t > 0,
    ensures
        round_half_even(n * t, d * t) == round_half_even(n, d),
{
    lemma_fundamental_div_mod(n as int, d as int);
    let q = n / d;
    let r = n % d;
    assert(n * t == q * (d * t) + r * t && r * t < d * t) by (nonlinear_arith)
        requires
            n == d * q + r,
            r < d,
            t > 0,
    ;
    lemma_round_from_parts(n * t, d * t, q, r * t);
    assert((2 * (r * t) > d * t) == (2 * r > d)) by (nonlinear_arith)
        requires
            t > 0,
    ;
    assert((2 * (r * t) == d * t) == (2 * r == d)) by (nonlinear_arith)
        requires
            t > 0,
    ;
}

/// Bounds of a rounded quotient from bounds of the numerator.
pub proof fn lemma_round_bounds(n: nat, d: nat, lo: nat, hi: nat)
    requires
        d > 0,
        lo * d <= n,
        n < hi * d,
    ensures
        lo <= round_half_even(n, d) <= hi,
{
    lemma_fundamental_div_mod(n as int, d as int);
    let q = n / d;
    let r = n % d;
    assert(lo <= q < hi) by (nonlinear_arith)
        requires
            n == d * q + r,
            r < d,
            lo * d <= n,
            n < hi * d,
            d > 0,
    ;
}

/// Rounding is monotone in the numerator.
pub proof fn lemma_round_monotone(a: nat, b: nat, d: nat)
    requires
        d > 0,
        a <= b,
    ensures
        round_half_even(a, d) <= round_half_even(b, d),
{
    lemma_fundamental_div_mod(a as int, d as int);
    lemma_fundamental_div_mod(b as int, d as int);
    let qa = a / d;
    let qb = b / d;
    let ra = a % d;
    let rb = b % d;
    assert(qa < qb || (qa == qb && ra <= rb)) by (nonlinear_arith)
        requires
            a == d * qa + ra,
            b == d * qb + rb,
            ra < d,
            rb < d,
            a <= b,
            d > 0,
    ;
}

/// `f64_scale` finds `k` where the condition holds at `k` and not below.
pub proof fn lemma_scale_from(n: nat, d: nat, from: nat, k: nat)
    requires
        from <= k < 256,
        n * two_to(k) >= min_significand() * d,
        forall|j: nat| from <= j < k ==> n * two_to(j) < min_significand() * d,
    ensures
        f64_scale(n, d, from) == k,
    decreases k - from,
{
    if from < k {
        lemma_scale_from(n, d, from + 1, k);
    }
}

/// `f64_scale(n, d, 0)` is `k` where the condition holds at `k` and not at
/// `k - 1`.
pub proof fn lemma_scale_is(n: nat, d: nat, k: nat)
    requires
        k < 256,
        n * two_to(k) >= min_significand() * d,
        k == 0 || n * two_to((k - 1) as nat) < min_significand() * d,
    ensures
        f64_scale(n, d, 0) == k,
{
    assert forall|j: nat| 0 <= j < k implies n * two_to(j) < min_significand() * d by {
        lemma_two_to_monotone(j, (k - 1) as nat);
        let a = two_to(j);
        let b = two_to((k - 1) as nat);
        assert(n * a <= n * b) by (nonlinear_arith)
            requires
                a <= b,
        ;
    }
    lemma_scale_from(n, d, 0, k);
}

/// The rounded quotient at the scale `k` is a 53-bit significand.
pub proof fn lemma_quotient_significand(n: nat, d: nat, k: nat)
    requires
        d > 0,
        n * two_to(k) >= min_significand() * d,
        k > 0,
        n * two_to((k - 1) as nat) < min_significand() * d,
    ensures
        min_significand() <= round_half_even(n * two_to(k), d) <= 2 * min_significand(),
{
    let h = two_to((k - 1) as nat);
    assert(two_to(k) == 2 * h);
    assert(n * two_to(k) < 2 * min_significand() * d) by (nonlinear_arith)
        requires
            n * h < min_significand() * d,
            two_to(k) == 2 * h,
    ;
    lemma_round_bounds(n * two_to(k), d, min_significand(), 2 * min_significand());
}

pub proof fn lemma_powers()
    ensures
        two_to(1) == 2,
        two_to(6) == 64,
        two_to(7) == 128,
        two_to(8) == 256,
        two_to(11) == 2048,
        two_to(20) == 0x10_0000,
        two_to(52) == 0x10_0000_0000_0000,
        two_to(53) == 0x20_0000_0000_0000,
        two_to(60) == 0x1000_0000_0000_0000,
        two_to(64) == 0x1_0000_0000_0000_0000,
        two_to(72) == 0x100_0000_0000_0000_0000,
        two_to(117) == 0x20_0000_0000_0000_0000_0000_0000_0000,
{
    reveal_with_fuel(two_to, 12);
    lemma_two_to_add(10, 10);
    assert(two_to(20) == 0x10_0000);
    lemma_two_to_add(20, 20);
    assert(two_to(40) == 0x100_0000_0000);
    lemma_two_to_add(40, 11);
    assert(two_to(51) == 0x100_0000_0000 * 2048);
    lemma_two_to_add(51, 1);
    assert(two_to(52) == 0x8_0000_0000_0000 * 2);
    lemma_two_to_add(52, 1);
    assert(two_to(53) == 0x10_0000_0000_0000 * 2);
    lemma_two_to_add(52, 8);
    assert(two_to(60) == 0x10_0000_0000_0000 * 256);
    lemma_two_to_add(60, 4);
    assert(two_to(64) == 0x1000_0000_0000_0000 * 16);
    lemma_two_to_add(64, 8);
    assert(two_to(72) == 0x1_0000_0000_0000_0000 * 256);
    lemma_two_to_add(64, 53);
    assert(two_to(117) == 0x1_0000_0000_0000_0000 * 0x20_0000_0000_0000);
}


/// `round_half_even` on machine integers.
pub fn round_half_even_exec(n: u128, d: u128) -> (r: u128)
    requires
        d >= 1,
        d < 0x8000_0000_0000_0000_0000_0000_0000_0000,
        n < 0x8000_0000_0000_0000_0000_0000_0000_0000,
    ensures
        r == round_half_even(n as nat, d as nat),
        r <= n + 1,
{
    proof {
        lemma_fundamental_div_mod(n as int, d as int);
        let q = n as int / d as int;
        let rem = n as int % d as int;
        assert(q <= n) by (nonlinear_arith)
            requires
                n == d * q + rem,
                d >= 1,
                0 <= rem,
                q >= 0,
        ;
    }
    let q = n / d;
    let rem = n % d;
    if 2 * rem > d || (2 * rem == d && q % 2 == 1) {
        q + 1
    } else {
        q
    }
}

/// `b as f64`, exactly: `u64_as_f64(b)`.
pub fn u64_as_f64_exec(b: u64) -> (x: u128)
    ensures
        x == u64_as_f64(b),
        x <= 0x1_0000_0000_0000_0000,
        b >= 1 ==> x >= 1,
        b < 0x20_0000_0000_0000 ==> x == b,
        b >= 0x20_0000_0000_0000 ==> x >= 0x20_0000_0000_0000,
{
    proof {
        lemma_powers();
    }
    let v: u128 = b as u128;
    let mut u: u64 = 0;
    let mut p: u128 = 1;
    while v >= 0x20_0000_0000_0000 * p
        invariant
            p == two_to(u as nat),
            u <= 11,
            v == b,
            two_to(11) == 2048,
            two_to(64) == 0x1_0000_0000_0000_0000,
            1 <= p,
            u >= 1 ==> v >= 0x10_0000_0000_0000 * p,
            dropped_bits(v as nat, 0) == dropped_bits(v as nat, u as nat),
        decreases 11 - u,
    {
        proof {
            if u == 11 {
                assert(false);
            }
        }
        let ghost p0 = p;
        p = p * 2;
        u = u + 1;
        assert(v >= 0x10_0000_0000_0000 * p);
    }
    assert(dropped_bits(v as nat, u as nat) == u);
    proof {
        lemma_two_to_monotone(u as nat, 11);
    }
    let m = round_half_even_exec(v, p);
    proof {
        if u >= 1 {
            lemma_round_bounds(v as nat, p as nat, 0x10_0000_0000_0000, 0x20_0000_0000_0000);
        } else {
            assert(p == 1);
            lemma_round_from_parts(v as nat, 1, v as nat, 0);
        }
        assert(m * p <= 0x1_0000_0000_0000_0000) by (nonlinear_arith)
            requires
                u >= 1 ==> m <= 0x20_0000_0000_0000,
                u == 0 ==> m == v && p == 1,
                v < 0x1_0000_0000_0000_0000,
                p <= 2048,
                u >= 1 ==> 0x20_0000_0000_0000 * p <= 0x1_0000_0000_0000_0000,
        ;
    }
    let x = m * p;
    proof {
        if u >= 1 {
            assert(x >= 0x20_0000_0000_0000) by (nonlinear_arith)
                requires
                    x == m * p,
                    m >= 0x10_0000_0000_0000,
                    p >= 2,
            ;
            assert(p >= 2) by {
                assert(two_to(u as nat) == 2 * two_to((u - 1) as nat));
                lemma_two_to_positive((u - 1) as nat);
            }
        }
    }
    x
}

/// `f64_quotient(n, d)` on machine integers, for a quotient below 2^53.
pub fn quotient_of(n: u128, d: u128) -> (r: (u128, u64))
    requires
        1 <= d <= 0x2_0000_0000_0000_0000,
        n < 0x20_0000_0000_0000 * d,
    ensures
        (r.0 as nat, r.1 as nat) == f64_quotient(n as nat, d as nat),
        r.0 <= 0x20_0000_0000_0000,
        r.1 <= 117,
        n > 0 ==> {
            &&& r.0 >= 0x10_0000_0000_0000
            &&& n * two_to(r.1 as nat) >= min_significand() * d
            &&& (r.1 == 0 || n * two_to((r.1 - 1) as nat) < min_significand() * d)
        },
{
    if n == 0 {
        return (0, 0);
    }
    proof {
        lemma_powers();
    }
    let target: u128 = 0x10_0000_0000_0000 * d;
    let mut v: u128 = n;
    let mut k: u64 = 0;
    assert(two_to(0) == 1);
    assert(v == n * two_to(0)) by (nonlinear_arith)
        requires
            v == n,
            two_to(0) == 1,
    ;
    while v < target
        invariant
            v == n * two_to(k as nat),
            n >= 1,
            k <= 117,
            v < 2 * target,
            target == min_significand() * d,
            target <= 0x20_0000_0000_0000_0000_0000_0000_0000,
            two_to(117) == 0x20_0000_0000_0000_0000_0000_0000_0000,
            k == 0 || n * two_to((k - 1) as nat) < target,
            f64_scale(n as nat, d as nat, 0) == f64_scale(n as nat, d as nat, k as nat),
        decreases 117 - k,
    {
        proof {
            lemma_two_to_positive(k as nat);
            assert(v >= two_to(k as nat)) by (nonlinear_arith)
                requires
                    v == n * two_to(k as nat),
                    n >= 1,
            ;
            if k >= 117 {
                lemma_two_to_monotone(117, k as nat);
                assert(false);
            }
        }
        let ghost k0 = k;
        v = v * 2;
        k = k + 1;
        assert(two_to(k as nat) == 2 * two_to(k0 as nat));
        assert(v == n * two_to(k as nat)) by (nonlinear_arith)
            requires
                v == 2 * (n * two_to(k0 as nat)),
                two_to(k as nat) == 2 * two_to(k0 as nat),
        ;
    }
    assert(f64_scale(n as nat, d as nat, k as nat) == k);
    let m = round_half_even_exec(v, d);
    proof {
        if k == 0 {
            lemma_round_bounds(v as nat, d as nat, min_significand(), 2 * min_significand());
        } else {
            lemma_quotient_significand(n as nat, d as nat, k as nat);
        }
    }
    (m, k)
}

/// `2^e` on machine integers.
pub fn two_to_exec(e: u64) -> (p: u128)
    requires
        e <= 126,
    ensures
        p == two_to(e as nat),
        p <= 0x4000_0000_0000_0000_0000_0000_0000_0000,
{
    let mut p: u128 = 1;
    let mut i: u64 = 0;
    proof {
        reveal_with_fuel(two_to, 1);
        lemma_two_to_add(0, 0);
    }
    while i < e
        invariant
            i <= e,
            e <= 126,
            p == two_to(i as nat),
        decreases e - i,
    {
        proof {
            lemma_two_to_monotone(i as nat, 126);
            lemma_two_to_add(63, 63);
            lemma_powers();
            assert(two_to(126) == 0x1_0000_0000_0000_0000 * 0x4000_0000_0000_0000) by {
                lemma_two_to_add(64, 62);
                lemma_two_to_add(60, 2);
                reveal_with_fuel(two_to, 3);
            }
        }
        p = p * 2;
        i = i + 1;
    }
    proof {
        lemma_two_to_monotone(e as nat, 126);
        lemma_powers();
        lemma_two_to_add(64, 62);
        lemma_two_to_add(60, 2);
        reveal_with_fuel(two_to, 3);
    }
    p
}

/// `dropped_bits(b, 0)` is the least `u` with `b < 2^(53 + u)`, at most 11
/// for a `u64`.
pub proof fn lemma_dropped_bits(b: nat, from: nat)
    requires
        b < two_to(64),
        from <= 11,
        from == 0 || b >= 2 * min_significand() * two_to((from - 1) as nat),
    ensures
        ({
            let u = dropped_bits(b, from);
            &&& u <= 11
            &&& b < 2 * min_significand() * two_to(u)
            &&& (u == 0 || b >= 2 * min_significand() * two_to((u - 1) as nat))
        }),
    decreases 11 - from,
{
    lemma_powers();
    if b >= 2 * min_significand() * two_to(from) {
        if from == 11 {
            assert(false);
        }
        lemma_dropped_bits(b, from + 1);
    }
}

/// `as f64` keeps the order of integers.
pub proof fn lemma_u64_as_f64_monotone(a: u64, b: u64)
    requires
        a <= b,
    ensures
        u64_as_f64(a) <= u64_as_f64(b),
{
    lemma_powers();
    lemma_dropped_bits(a as nat, 0);
    lemma_dropped_bits(b as nat, 0);
    let ua = dropped_bits(a as nat, 0);
    let ub = dropped_bits(b as nat, 0);
    let pa = two_to(ua);
    let pb = two_to(ub);
    lemma_two_to_positive(ua);
    lemma_two_to_positive(ub);
    let big = 2 * min_significand();
    if ua > ub {
        lemma_two_to_monotone(ub, (ua - 1) as nat);
        assert(big * pb <= big * two_to((ua - 1) as nat)) by (nonlinear_arith)
            requires
                pb <= two_to((ua - 1) as nat),
        ;
        assert(false);
    }
    let ma = round_half_even(a as nat, pa);
    let mb = round_half_even(b as nat, pb);
    if ua == ub {
        lemma_round_monotone(a as nat, b as nat, pa);
        assert(ma * pa <= mb * pb) by (nonlinear_arith)
            requires
                ma <= mb,
                pa == pb,
        ;
    } else {
        assert(ub >= 1);
        lemma_round_bounds(a as nat, pa, 0, big);
        assert(two_to(ub) == 2 * two_to((ub - 1) as nat));
        assert(b >= min_significand() * pb);
        lemma_round_bounds(b as nat, pb, min_significand(), big * 2);
        lemma_two_to_add(ua, 1);
        lemma_two_to_monotone(ua + 1, ub);
        assert(two_to(1) == 2);
        assert(ma * pa <= mb * pb) by (nonlinear_arith)
            requires
                ma <= big,
                mb >= min_significand(),
                big == 2 * min_significand(),
                2 * pa <= pb,
                pa >= 1,
        ;
    }
}

/// `c + y / 2^e` at the scale `k`: the condition of `f64_scale` on the sum,
/// with `2^e` split as `2^k * 2^(e - k)`.
pub proof fn lemma_sum_condition(c: nat, y: nat, e: nat, k: nat)
    requires
        k <= e,
    ensures
        ((c * two_to(e) + y) * two_to(k) >= min_significand() * two_to(e)) == (c * two_to(k) + y
            / two_to((e - k) as nat) >= min_significand()),
        two_to(e) == two_to(k) * two_to((e - k) as nat),
{
    lemma_two_to_add(k, (e - k) as nat);
    let pk = two_to(k);
    let dk = two_to((e - k) as nat);
    lemma_two_to_positive(k);
    lemma_two_to_positive((e - k) as nat);
    lemma_fundamental_div_mod(y as int, dk as int);
    let q = y / dk;
    let r = y % dk;
    let n = c * two_to(e) + y;
    assert(n == (c * pk + q) * dk + r) by (nonlinear_arith)
        requires
            n == c * two_to(e) + y,
            two_to(e) == pk * dk,
            y == dk * q + r,
    ;
    assert((n * pk >= min_significand() * two_to(e)) == (n >= min_significand() * dk)) by (nonlinear_arith)
        requires
            two_to(e) == pk * dk,
            pk >= 1,
    ;
    assert((n >= min_significand() * dk) == (c * pk + q >= min_significand())) by (nonlinear_arith)
        requires
            n == (c * pk + q) * dk + r,
            r < dk,
            dk >= 1,
    ;
}

/// `f64_quotient(c * 2^e + y, 2^e)`: the `f64` sum of a count `c` and a
/// significand `y` at the scale `e`, on machine integers.
pub fn sum_quotient(c: u128, y: u128, e: u64) -> (r: (u128, u64))
    requires
        c <= 0x1_0000_0000,
        0x10_0000_0000_0000 <= y <= 0x20_0000_0000_0000,
        52 <= e <= 117,
    ensures
        (r.0 as nat, r.1 as nat) == f64_quotient((c * two_to(e as nat) + y) as nat, two_to(e as nat)),
        0x10_0000_0000_0000 <= r.0 <= 0x20_0000_0000_0000,
        7 <= r.1 <= 117,
{
    proof {
        lemma_powers();
    }
    let ghost n: nat = (c * two_to(e as nat) + y) as nat;
    let ghost d: nat = two_to(e as nat);
    let de = two_to_exec(e);
    let mut k: u64 = 0;
    let mut pk: u128 = 1;
    let mut dk: u128 = de;
    let mut cp: u128 = c;
    proof {
        assert(c * 1 == c);
        lemma_two_to_monotone(e as nat, 117);
        assert(two_to(0) == 1);
        assert((e - 0) as nat == e as nat);
        lemma_two_to_positive(e as nat);
        lemma_fundamental_div_mod(y as int, dk as int);
        assert(y / dk <= y) by (nonlinear_arith)
            requires
                y == dk * (y / dk) + y % dk,
                dk >= 1,
                y % dk >= 0,
                y / dk >= 0,
        ;
    }
    let mut below = cp + y / dk < 0x10_0000_0000_0000;
    while below
        invariant
            k <= e,
            e <= 117,
            pk == two_to(k as nat),
            dk == two_to((e - k) as nat),
            cp == c * pk,
            below == (cp + y / dk < 0x10_0000_0000_0000),
            c <= 0x1_0000_0000,
            0x10_0000_0000_0000 <= y <= 0x20_0000_0000_0000,
            c == 0 || k <= 52,
            c == 0 || pk <= 0x10_0000_0000_0000,
            pk <= 0x20_0000_0000_0000_0000_0000_0000_0000,
            cp <= 0x1_0000_0000 * 0x10_0000_0000_0000,
            dk >= 1,
            dk <= 0x20_0000_0000_0000_0000_0000_0000_0000,
            two_to(52) == 0x10_0000_0000_0000,
            two_to(117) == 0x20_0000_0000_0000_0000_0000_0000_0000,
            n == c * two_to(e as nat) + y,
            d == two_to(e as nat),
            k == 0 || n * two_to((k - 1) as nat) < min_significand() * d,
            f64_scale(n, d, 0) == f64_scale(n, d, k as nat),
        decreases e - k,
    {
        proof {
            lemma_sum_condition(c as nat, y as nat, e as nat, k as nat);
            if k == e {
                assert(dk == 1);
                lemma_fundamental_div_mod(y as int, 1);
                assert(y / dk == y);
                assert(false);
            }
            if c > 0 && k >= 52 {
                lemma_two_to_monotone(52, k as nat);
                assert(c * pk >= 0x10_0000_0000_0000) by (nonlinear_arith)
                    requires
                        c >= 1,
                        pk >= 0x10_0000_0000_0000,
                ;
                assert(false);
            }
            assert(two_to((e - k) as nat) == 2 * two_to((e - k - 1) as nat));
        }
        let ghost k0 = k;
        k = k + 1;
        pk = pk * 2;
        dk = dk / 2;
        proof {
            assert((e - k) as nat == (e - k0 - 1) as nat);
            lemma_two_to_positive((e - k) as nat);
            lemma_two_to_monotone((e - k) as nat, 117);
            lemma_two_to_monotone(k as nat, 117);
            if c > 0 {
                lemma_two_to_monotone(k as nat, 52);
            }
            assert(c * pk <= 0x1_0000_0000 * 0x10_0000_0000_0000) by (nonlinear_arith)
                requires
                    c <= 0x1_0000_0000,
                    c == 0 || pk <= 0x10_0000_0000_0000,
            ;
            lemma_fundamental_div_mod(y as int, dk as int);
            assert(y / dk <= y) by (nonlinear_arith)
                requires
                    y == dk * (y / dk) + y % dk,
                    dk >= 1,
                    y % dk >= 0,
                    y / dk >= 0,
            ;
        }
        cp = c * pk;
        below = cp + y / dk < 0x10_0000_0000_0000;
    }
    proof {
        lemma_sum_condition(c as nat, y as nat, e as nat, k as nat);
        lemma_scale_is(n, d, k as nat);
        lemma_two_to_positive((e - k) as nat);
        if k < 7 {
            lemma_two_to_monotone(k as nat, 6);
            lemma_two_to_monotone(46, (e - k) as nat);
            lemma_two_to_add(46, 0);
            assert(two_to(46) * two_to(6) == two_to(52)) by {
                lemma_two_to_add(46, 6);
            }
            assert(two_to(6) == 64);
            assert(y / dk <= 128) by (nonlinear_arith)
                requires
                    y <= 0x20_0000_0000_0000,
                    dk >= two_to(46),
                    two_to(46) * 64 == 0x10_0000_0000_0000,
            {
                lemma_fundamental_div_mod(y as int, dk as int);
            }
            assert(c * pk <= 0x40_0000_0000) by (nonlinear_arith)
                requires
                    c <= 0x1_0000_0000,
                    pk <= 64,
            ;
            assert(false);
        }
    }
    let q = cp + y / dk;
    let rem = y % dk;
    proof {
        lemma_mod_pos_bound(y as int, dk as int);
    }
    let m = if 2 * rem > dk || (2 * rem == dk && q % 2 == 1) {
        q + 1
    } else {
        q
    };
    proof {
        lemma_two_to_positive(k as nat);
        lemma_fundamental_div_mod(y as int, dk as int);
        assert(n == q * dk + rem) by (nonlinear_arith)
            requires
                n == c * two_to(e as nat) + y,
                two_to(e as nat) == pk * dk,
                y == dk * (y / dk) + rem,
                q == c * pk + y / dk,
        ;
        lemma_round_from_parts(n, dk as nat, q as nat, rem as nat);
        lemma_round_scaled(n, dk as nat, pk as nat);
        assert(d == dk * pk) by (nonlinear_arith)
            requires
                d == pk * dk,
        ;
        lemma_quotient_significand(n, d, k as nat);
    }
    (m, k)
}

/// `f64_quotient(100 * m, 2^k)`: a significand `m` at the scale `k` times a
/// hundred, on machine integers.
pub fn times_hundred(m: u128, k: u64) -> (r: (u128, u64))
    requires
        0x10_0000_0000_0000 <= m <= 0x20_0000_0000_0000,
        7 <= k <= 117,
    ensures
        (r.0 as nat, r.1 as nat) == f64_quotient(100 * m as nat, two_to(k as nat)),
        0x10_0000_0000_0000 <= r.0 <= 0x20_0000_0000_0000,
        r.1 <= 117,
{
    proof {
        lemma_powers();
    }
    let n: u128 = 100 * m;
    let j: u64 = if n >= 0x800_0000_0000_0000 {
        7
    } else {
        6
    };
    let pj: u128 = if j == 7 {
        128
    } else {
        64
    };
    let scale: u64 = k - j;
    proof {
        let t = two_to(scale as nat);
        lemma_two_to_add(j as nat, scale as nat);
        assert((j + scale) as nat == k as nat);
        assert(two_to(k as nat) == pj * t);
        lemma_two_to_positive(scale as nat);
        assert(n * t >= min_significand() * two_to(k as nat)) by (nonlinear_arith)
            requires
                n >= min_significand() * pj,
                two_to(k as nat) == pj * t,
                t >= 1,
        ;
        assert(n < 2 * min_significand() * pj);
        if scale > 0 {
            assert(t == 2 * two_to((scale - 1) as nat));
            lemma_two_to_positive((scale - 1) as nat);
            assert(n * two_to((scale - 1) as nat) < min_significand() * two_to(k as nat)) by (nonlinear_arith)
                requires
                    n < 2 * min_significand() * pj,
                    two_to(k as nat) == pj * t,
                    t == 2 * two_to((scale - 1) as nat),
                    two_to((scale - 1) as nat) >= 1,
            ;
        }
        lemma_scale_is(n as nat, two_to(k as nat), scale as nat);
        lemma_round_scaled(n as nat, pj as nat, t);
        assert(n * t == (n as nat) * t && pj * t == two_to(k as nat));
        lemma_round_bounds(n as nat, pj as nat, min_significand(), 2 * min_significand());
    }
    let hm = round_half_even_exec(n, pj);
    (hm, scale)
}

/// `f64_quotient(m, d * 2^k)`: a significand `m` at the scale `k` divided by
/// a count `d`, on machine integers, as `(significand, scale)`.
pub fn divided_by(m: u128, k: u64, d: u128) -> (r: (u128, u64))
    requires
        0x10_0000_0000_0000 <= m <= 0x20_0000_0000_0000,
        k <= 117,
        1 <= d <= 0x1_0000_0000,
    ensures
        (r.0 as nat, r.1 as nat) == f64_quotient(m as nat, (d * two_to(k as nat)) as nat),
        r.0 <= 0x20_0000_0000_0000,
        r.1 <= 150,
{
    proof {
        lemma_powers();
        lemma_two_to_positive(k as nat);
    }
    let ghost dd: nat = (d * two_to(k as nat)) as nat;
    if k >= 1 && m == 0x20_0000_0000_0000 && d == 1 {
        proof {
            let h = two_to((k - 1) as nat);
            assert(two_to(k as nat) == 2 * h);
            assert(m * h == min_significand() * dd);
            if k >= 2 {
                assert(h == 2 * two_to((k - 2) as nat));
                assert(m * two_to((k - 2) as nat) < min_significand() * dd);
            }
            lemma_scale_is(m as nat, dd, (k - 1) as nat);
            assert(m * h == min_significand() * dd + 0);
            lemma_round_from_parts((m * h) as nat, dd, min_significand(), 0);
        }
        return (0x10_0000_0000_0000, k - 1);
    }
    let target: u128 = 0x10_0000_0000_0000 * d;
    let mut v: u128 = m;
    let mut j: u64 = 0;
    proof {
        assert(two_to(0) == 1);
        assert(m * 1 == m);
    }
    while v < target
        invariant
            v == m * two_to(j as nat),
            0x10_0000_0000_0000 <= m <= 0x20_0000_0000_0000,
            1 <= d <= 0x1_0000_0000,
            target == min_significand() * d,
            j <= 32,
            j == 0 || v < 2 * target,
            j == 0 || m * two_to((j - 1) as nat) < target,
            two_to(52) == 0x10_0000_0000_0000,
        decreases 32 - j,
    {
        proof {
            if j >= 32 {
                lemma_two_to_monotone(32, j as nat);
                lemma_two_to_add(20, 12);
                assert(two_to(32) == 0x1_0000_0000) by {
                    lemma_two_to_add(20, 12);
                    reveal_with_fuel(two_to, 13);
                }
                assert(v >= 0x10_0000_0000_0000 * 0x1_0000_0000) by (nonlinear_arith)
                    requires
                        v == m * two_to(j as nat),
                        m >= 0x10_0000_0000_0000,
                        two_to(j as nat) >= 0x1_0000_0000,
                ;
                assert(false);
            }
        }
        let ghost j0 = j;
        v = v * 2;
        j = j + 1;
        assert(two_to(j as nat) == 2 * two_to(j0 as nat));
        assert(v == m * two_to(j as nat)) by (nonlinear_arith)
            requires
                v == 2 * (m * two_to(j0 as nat)),
                two_to(j as nat) == 2 * two_to(j0 as nat),
        ;
    }
    let scale: u64 = k + j;
    proof {
        let t = two_to(k as nat);
        lemma_two_to_add(j as nat, k as nat);
        assert((j + k) as nat == scale as nat);
        assert(m * two_to(scale as nat) == v * t) by (nonlinear_arith)
            requires
                two_to(scale as nat) == two_to(j as nat) * t,
                v == m * two_to(j as nat),
        ;
        assert(dd == d * t);
        assert(v * t >= min_significand() * dd) by (nonlinear_arith)
            requires
                v >= min_significand() * d,
                dd == d * t,
                t >= 1,
        ;
        if scale > 0 {
            if j > 0 {
                lemma_two_to_add((j - 1) as nat, k as nat);
                assert(((j - 1) + k) as nat == (scale - 1) as nat);
                assert(m * two_to((scale - 1) as nat) < min_significand() * dd) by (nonlinear_arith)
                    requires
                        two_to((scale - 1) as nat) == two_to((j - 1) as nat) * t,
                        m * two_to((j - 1) as nat) < min_significand() * d,
                        dd == d * t,
                        t >= 1,
                ;
            } else {
                assert(t == 2 * two_to((k - 1) as nat));
                assert(m * two_to((scale - 1) as nat) < min_significand() * dd) by (nonlinear_arith)
                    requires
                        scale == k,
                        t == 2 * two_to((k - 1) as nat),
                        m <= 2 * min_significand(),
                        !(m == 2 * min_significand() && d == 1),
                        dd == d * t,
                        d >= 1,
                        two_to((k - 1) as nat) >= 1,
                ;
                lemma_two_to_positive((k - 1) as nat);
            }
        }
        lemma_scale_is(m as nat, dd, scale as nat);
        lemma_round_scaled(v as nat, d as nat, t);
        assert(v * t == m * two_to(scale as nat) && d * t == dd);
        if j > 0 {
            lemma_round_bounds(v as nat, d as nat, 0, 2 * min_significand());
        } else {
            lemma_round_bounds(v as nat, d as nat, 0, 2 * min_significand() + 1);
            lemma_fundamental_div_mod(v as int, d as int);
        }
    }
    let qm = round_half_even_exec(v, d);
    proof {
        if j == 0 {
            lemma_fundamental_div_mod(v as int, d as int);
            let q = v as int / d as int;
            assert(q <= v) by (nonlinear_arith)
                requires
                    v == d * q + v as int % d as int,
                    d >= 1,
                    v as int % d as int >= 0,
                    q >= 0,
            ;
            assert(q < 2 * min_significand() || (v == 2 * min_significand() && d == 1));
        }
    }
    (qm, scale)
}

/// `m / 2^k` rounded down, on machine integers.
pub fn floor_at_scale(m: u128, k: u64) -> (r: u128)
    requires
        m <= 0x20_0000_0000_0000,
    ensures
        r == m as nat / two_to(k as nat),
{
    proof {
        lemma_powers();
    }
    if k >= 64 {
        proof {
            lemma_two_to_monotone(64, k as nat);
            lemma_fundamental_div_mod_converse(m as int, two_to(k as nat) as int, 0, m as int);
        }
        return 0;
    }
    let p = two_to_exec(k);
    proof {
        lemma_two_to_positive(k as nat);
    }
    m / p
}

/// `a` is at most `b`, as `f64` values `(m, k)` for `m / 2^k`.
pub open spec fn f64_le(a: (nat, nat), b: (nat, nat)) -> bool {
    a.0 * two_to(b.1) <= b.0 * two_to(a.1)
}

proof fn lemma_scale_found(n: nat, d: nat, from: nat, bound: nat)
    requires
        from <= bound < 256,
        n * two_to(bound) >= min_significand() * d,
        from == 0 || n * two_to((from - 1) as nat) < min_significand() * d,
    ensures
        ({
            let k = f64_scale(n, d, from);
            &&& from <= k <= bound
            &&& n * two_to(k) >= min_significand() * d
            &&& (k == 0 || n * two_to((k - 1) as nat) < min_significand() * d)
        }),
    decreases bound - from,
{
    if n * two_to(from) < min_significand() * d {
        lemma_scale_found(n, d, from + 1, bound);
    }
}

/// What `f64_quotient` gives of a positive quotient below 2^53 whose scale
/// is below 256.
pub proof fn lemma_quotient_props(n: nat, d: nat, bound: nat)
    requires
        d >= 1,
        n < 2 * min_significand() * d,
        bound < 256,
        n == 0 || n * two_to(bound) >= min_significand() * d,
    ensures
        n == 0 ==> f64_quotient(n, d) == (0nat, 0nat),
        n > 0 ==> ({
            let (m, k) = f64_quotient(n, d);
            &&& min_significand() <= m <= 2 * min_significand()
            &&& k <= bound
            &&& n * two_to(k) >= min_significand() * d
            &&& (k == 0 || n * two_to((k - 1) as nat) < min_significand() * d)
            &&& forall|j: nat| n * two_to(j) >= min_significand() * d ==> k <= j
        }),
{
    if n > 0 {
        lemma_scale_found(n, d, 0, bound);
        let k = f64_scale(n, d, 0);
        if k == 0 {
            assert(two_to(0) == 1);
            assert(n * 1 == n);
            lemma_round_bounds(n, d, min_significand(), 2 * min_significand());
        } else {
            lemma_quotient_significand(n, d, k);
        }
        assert forall|j: nat| n * two_to(j) >= min_significand() * d implies k <= j by {
            if j < k {
                lemma_two_to_monotone(j, (k - 1) as nat);
                let a = two_to(j);
                let b = two_to((k - 1) as nat);
                assert(n * a <= n * b) by (nonlinear_arith)
                    requires
                        a <= b,
                ;
            }
        }
    }
}

/// Rounding to the nearest `f64` keeps the order of quotients.
pub proof fn lemma_quotient_monotone(n1: nat, d1: nat, n2: nat, d2: nat, bound: nat)
    requires
        d1 >= 1,
        d2 >= 1,
        n1 * d2 <= n2 * d1,
        n1 < 2 * min_significand() * d1,
        n2 < 2 * min_significand() * d2,
        bound < 256,
        n1 == 0 || n1 * two_to(bound) >= min_significand() * d1,
        n2 == 0 || n2 * two_to(bound) >= min_significand() * d2,
    ensures
        f64_le(f64_quotient(n1, d1), f64_quotient(n2, d2)),
{
    lemma_quotient_props(n1, d1, bound);
    lemma_quotient_props(n2, d2, bound);
    let (m1, k1) = f64_quotient(n1, d1);
    let (m2, k2) = f64_quotient(n2, d2);
    lemma_two_to_positive(k1);
    lemma_two_to_positive(k2);
    if n1 == 0 {
        assert(m1 * two_to(k2) == 0);
        return;
    }
    if n2 == 0 {
        assert(n1 * d2 > 0) by (nonlinear_arith)
            requires
                n1 >= 1,
                d2 >= 1,
        ;
        assert(false);
    }
    let s = min_significand();
    // The larger quotient meets the scale condition at `k1`.
    assert(n2 * two_to(k1) >= s * d2) by (nonlinear_arith)
        requires
            n1 * two_to(k1) >= s * d1,
            n1 * d2 <= n2 * d1,
            d1 >= 1,
            d2 >= 1,
            two_to(k1) >= 1,
    ;
    assert(k2 <= k1);
    if k1 == k2 {
        let t = two_to(k1);
        lemma_round_scaled(n1 * t, d1, d2);
        lemma_round_scaled(n2 * t, d2, d1);
        assert(n1 * t * d2 <= n2 * t * d1) by (nonlinear_arith)
            requires
                n1 * d2 <= n2 * d1,
        ;
        assert(d2 * d1 == d1 * d2 && d1 * d2 >= 1) by (nonlinear_arith)
            requires
                d1 >= 1,
                d2 >= 1,
        ;
        lemma_round_monotone(n1 * t * d2, n2 * t * d1, d1 * d2);
        assert(m1 * t <= m2 * t) by (nonlinear_arith)
            requires
                m1 <= m2,
        ;
    } else {
        lemma_two_to_add(k2, 1);
        lemma_two_to_monotone(k2 + 1, k1);
        assert(two_to(1) == 2) by {
            reveal_with_fuel(two_to, 2);
        }
        assert(m1 * two_to(k2) <= m2 * two_to(k1)) by (nonlinear_arith)
            requires
                m1 <= 2 * s,
                m2 >= s,
                two_to((k2 + 1) as nat) == two_to(k2) * 2,
                two_to((k2 + 1) as nat) <= two_to(k1),
                two_to(k2) >= 1,
        ;
    }
}

/// Rounding down keeps the order of `f64` values.
pub proof fn lemma_floor_monotone(a: (nat, nat), b: (nat, nat))
    requires
        f64_le(a, b),
    ensures
        a.0 / two_to(a.1) <= b.0 / two_to(b.1),
{
    lemma_two_to_positive(a.1);
    lemma_two_to_positive(b.1);
    let ta = two_to(a.1);
    let tb = two_to(b.1);
    lemma_fundamental_div_mod(a.0 as int, ta as int);
    lemma_fundamental_div_mod(b.0 as int, tb as int);
    let qa = a.0 / ta;
    let qb = b.0 / tb;
    assert(qa <= qb) by (nonlinear_arith)
        requires
            a.0 * tb <= b.0 * ta,
            a.0 == ta * qa + a.0 % ta,
            b.0 == tb * qb + b.0 % tb,
            0 <= a.0 % ta,
            b.0 % tb < tb,
            ta >= 1,
            tb >= 1,
            qa >= 0,
            qb >= 0,
    ;
}

/// `as f64` of a positive integer is positive and at most 2^64.
pub proof fn lemma_u64_as_f64_bounds(b: u64)
    ensures
        u64_as_f64(b) <= two_to(64),
        b >= 1 ==> u64_as_f64(b) >= 1,
        b < two_to(53) ==> u64_as_f64(b) == b,
{
    lemma_powers();
    lemma_dropped_bits(b as nat, 0);
    let u = dropped_bits(b as nat, 0);
    let p = two_to(u);
    lemma_two_to_positive(u);
    let big = 2 * min_significand();
    lemma_round_bounds(b as nat, p, 0, big);
    let m = round_half_even(b as nat, p);
    lemma_two_to_add(53, u);
    lemma_two_to_monotone(53 + u, 64);
    assert(m * p <= two_to(64)) by (nonlinear_arith)
        requires
            m <= big,
            big * p == two_to(53 + u),
            two_to(53 + u) <= two_to(64),
    ;
    if b >= 1 {
        if u == 0 {
            assert(p == 1);
            lemma_round_from_parts(b as nat, 1, b as nat, 0);
        } else {
            assert(two_to(u) == 2 * two_to((u - 1) as nat));
            lemma_round_bounds(b as nat, p, min_significand(), big);
            assert(m * p >= 1) by (nonlinear_arith)
                requires
                    m >= 1,
                    p >= 1,
            ;
        }
    }
    if b < two_to(53) {
        if u > 0 {
            lemma_two_to_monotone(0, (u - 1) as nat);
            assert(two_to(u) == 2 * two_to((u - 1) as nat));
            assert(b >= big * two_to((u - 1) as nat));
            assert(big * two_to((u - 1) as nat) >= big) by (nonlinear_arith)
                requires
                    two_to((u - 1) as nat) >= 1,
            ;
            assert(false);
        }
        assert(p == 1);
        lemma_round_from_parts(b as nat, 1, b as nat, 0);
    }
}

} // verus!
