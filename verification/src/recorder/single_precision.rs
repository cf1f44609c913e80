//! Integer statements about IEEE 754 single precision.
//!
//! Samples travel through the recorder as the bit patterns of single-precision numbers, and the
//! latency of the shared ring buffer is a single-precision product. Both are stated here over the
//! integers: a number has at most 24 significant bits, and what does not fit is rounded to the
//! nearest such number, ties going to the even significand.

use vstd::arithmetic::div_mod::{
    lemma_div_by_multiple, lemma_div_denominator, lemma_fundamental_div_mod,
    lemma_mod_multiples_basic,
};
use vstd::arithmetic::mul::lemma_mul_is_commutative;
use vstd::arithmetic::power2::{
    lemma2_to64, lemma_pow2_adds, lemma_pow2_pos, lemma_pow2_strictly_increases, lemma_pow2_unfold,
    pow2,
};
use vstd::prelude::*;

verus! {

/// One more than the largest significand: 2 to the 24th.
pub const SIGNIFICAND_LIMIT: u64 = 0x100_0000;

/// The significand of the single-precision number nearest to 0.15, whose exponent is -26.
pub const LATENCY_SIGNIFICAND: u64 = 10_066_330;

/// Two to the power by which [`LATENCY_SIGNIFICAND`] is divided.
pub const LATENCY_SCALE: u64 = 0x400_0000;

/// How many low bits of `n` lie beyond its 24 leading ones.
pub open spec fn excess_bits(n: nat) -> nat
    decreases n,
{
    if n < SIGNIFICAND_LIMIT {
        0
    } else {
        1 + excess_bits(n / 2)
    }
}

/// The number with at most 24 significant bits that is nearest to `n`, ties to even.
pub open spec fn round24(n: nat) -> nat {
    let unit = pow2(excess_bits(n));
    let q = n / unit;
    let r = n % unit;
    if 2 * r > unit || (2 * r == unit && q % 2 == 1) {
        (q + 1) * unit
    } else {
        q * unit
    }
}

/// The number of bits of `n`, without leading zeros.
pub open spec fn bit_length(n: nat) -> nat
    decreases n,
{
    if n == 0 {
        0
    } else {
        1 + bit_length(n / 2)
    }
}

/// The bit pattern of the single-precision number nearest to `n` divided by 2 to the `k`.
///
/// It is meant for quotients that are zero or of a magnitude inside the normal range.
pub open spec fn single_bits(n: int, k: nat) -> int {
    let magnitude = round24(if n < 0 { (-n) as nat } else { n as nat });
    let bits = bit_length(magnitude);
    let sign: int = if n < 0 { 0x8000_0000 } else { 0 };
    let exponent = 127 + (bits - 1) - k;
    let significand: int = if bits <= 24 {
        (magnitude * pow2((24 - bits) as nat)) as int
    } else {
        (magnitude / pow2((bits - 24) as nat)) as int
    };
    if n == 0 {
        0
    } else {
        sign + exponent * 0x80_0000 + (significand - 0x80_0000)
    }
}

/// The frames of latency at a sample rate: 0.15 times the rate in single precision, truncated.
pub open spec fn latency_frames(sample_rate: nat) -> nat {
    round24(LATENCY_SIGNIFICAND as nat * round24(sample_rate)) / LATENCY_SCALE as nat
}

/// The quotient of [`round24`] has at most 24 bits, and exactly 24 if there are excess bits.
proof fn lemma_excess(n: nat)
    ensures
        n / pow2(excess_bits(n)) < SIGNIFICAND_LIMIT,
        excess_bits(n) > 0 ==> n / pow2(excess_bits(n)) >= SIGNIFICAND_LIMIT / 2,
        n < SIGNIFICAND_LIMIT ==> excess_bits(n) == 0,
    decreases n,
{
    lemma2_to64();
    if n >= SIGNIFICAND_LIMIT {
        let k = excess_bits(n / 2);
        lemma_excess(n / 2);
        lemma_pow2_pos(k);
        lemma_pow2_unfold((k + 1) as nat);
        lemma_div_denominator(n as int, 2, pow2(k) as int);
        assert(n / pow2((k + 1) as nat) == (n / 2) / pow2(k));
        if k == 0 {
            assert(pow2(k) == 1);
        }
    }
}

/// Rounding moves a number by at most half of its unit, and the unit is small against the number.
proof fn lemma_round24_near(n: nat)
    ensures
        n < SIGNIFICAND_LIMIT ==> round24(n) == n,
        2 * round24(n) <= 2 * n + pow2(excess_bits(n)),
        2 * n <= 2 * round24(n) + pow2(excess_bits(n)),
        n >= SIGNIFICAND_LIMIT ==> pow2(excess_bits(n)) * 0x80_0000 <= n,
        round24(n) >= (n / pow2(excess_bits(n))) * pow2(excess_bits(n)),
        pow2(excess_bits(n)) > 0,
{
    lemma2_to64();
    lemma_excess(n);
    let k = excess_bits(n);
    let unit = pow2(k);
    lemma_pow2_pos(k);
    let q = n / unit;
    let r = n % unit;
    lemma_fundamental_div_mod(n as int, unit as int);
    lemma_mul_is_commutative(unit as int, q as int);
    assert((q + 1) * unit == q * unit + unit) by (nonlinear_arith);
    if n >= SIGNIFICAND_LIMIT {
        assert(excess_bits(n) > 0);
        assert(unit * 0x80_0000 <= q * unit) by (nonlinear_arith)
            requires
                q >= 0x80_0000,
        ;
    }
}

/// Rounds to 24 significant bits, ties to even.
pub fn round_to_single(n: u64) -> (rounded: u64)
    requires
        n < 0x4000_0000_0000_0000,
    ensures
        rounded == round24(n as nat),
{
    let mut unit: u64 = 1;
    let mut q: u64 = n;
    let ghost mut k: nat = 0;
    proof {
        lemma2_to64();
    }
    while q >= SIGNIFICAND_LIMIT
        invariant
            n < 0x4000_0000_0000_0000,
            unit == pow2(k),
            unit > 0,
            q == n as nat / unit as nat,
            q * unit <= n,
            excess_bits(n as nat) == k + excess_bits(q as nat),
        decreases q,
    {
        proof {
            lemma_pow2_unfold((k + 1) as nat);
            lemma_div_denominator(n as int, unit as int, 2);
            assert(unit * 0x100_0000 <= q * unit) by (nonlinear_arith)
                requires
                    q >= 0x100_0000,
            ;
            assert((q / 2) * (unit * 2) <= q * unit) by (nonlinear_arith);
            k = k + 1;
        }
        q = q / 2;
        unit = unit * 2;
    }
    let r: u64 = n % unit;
    proof {
        lemma_excess(n as nat);
        assert(k == excess_bits(n as nat));
        assert((q + 1) * unit == q * unit + unit) by (nonlinear_arith);
        lemma_round24_near(n as nat);
    }
    if r > unit - r || (r == unit - r && q % 2 == 1) {
        (q + 1) * unit
    } else {
        q * unit
    }
}

/// The latency of no rate exceeds 2 to the 30th.
pub proof fn lemma_latency_bound(sample_rate: u32)
    ensures
        latency_frames(sample_rate as nat) <= 0x4000_0000,
{
    lemma2_to64();
    let rate = round24(sample_rate as nat);
    lemma_round24_near(sample_rate as nat);
    let product = LATENCY_SIGNIFICAND as nat * rate;
    assert(product <= LATENCY_SIGNIFICAND as nat * 0x1_0100_0000) by (nonlinear_arith)
        requires
            product == LATENCY_SIGNIFICAND as nat * rate,
            rate <= 0x1_0100_0000,
    ;
    lemma_round24_near(product);
}

/// The frames of latency that the shared ring buffer starts with.
pub fn latency_frame_count(sample_rate: u32) -> (frames: u32)
    ensures
        frames == latency_frames(sample_rate as nat),
{
    proof {
        lemma_round24_near(sample_rate as nat);
    }
    let rate: u64 = round_to_single(sample_rate as u64);
    assert(LATENCY_SIGNIFICAND * rate <= LATENCY_SIGNIFICAND * 0x1_8000_0000) by (nonlinear_arith)
        requires
            rate <= 0x1_8000_0000,
    ;
    let product: u64 = LATENCY_SIGNIFICAND * rate;
    proof {
        lemma_round24_near(product as nat);
    }
    let rounded: u64 = round_to_single(product);
    (rounded / LATENCY_SCALE) as u32
}

/// Up to three million frames per second, the latency is exactly 150 milliseconds: three
/// twentieths of the rate, rounded down. No rounding error of the product shows.
pub proof fn law_latency_is_150_milliseconds(sample_rate: nat)
    requires
        sample_rate <= 3_000_000,
    ensures
        latency_frames(sample_rate) == 3 * sample_rate / 20,
{
    lemma2_to64();
    lemma_round24_near(sample_rate);
    let n = LATENCY_SIGNIFICAND as nat * sample_rate;
    let t = 3 * sample_rate / 20;
    let k = excess_bits(n);
    let unit = pow2(k);
    lemma_round24_near(n);
    lemma_excess(n);
    assert(n == 10_066_330 * sample_rate) by (nonlinear_arith)
        requires
            n == LATENCY_SIGNIFICAND as nat * sample_rate,
            LATENCY_SIGNIFICAND == 10_066_330,
    ;
    assert(20 * n == 201_326_592 * sample_rate + 8 * sample_rate);
    assert(t * 0x400_0000 <= n);
    lemma_excess_is_small(n, 22);
    // The product is not rounded below the whole number of frames under it.
    assert(t * 0x400_0000 <= round24(n)) by {
        let m = pow2((26 - k) as nat);
        lemma_pow2_adds(k, (26 - k) as nat);
        assert(unit * m == 0x400_0000);
        lemma_fundamental_div_mod(n as int, unit as int);
        let q = n / unit;
        assert(unit * (t * m) == t * 0x400_0000) by (nonlinear_arith)
            requires
                unit * m == 0x400_0000,
        ;
        assert(unit * (q + 1) == unit * q + unit) by (nonlinear_arith);
        assert(t * m <= q) by (nonlinear_arith)
            requires
                unit * (t * m) <= n,
                n < unit * (q + 1),
                unit > 0,
        ;
        assert(unit * (t * m) <= q * unit) by (nonlinear_arith)
            requires
                t * m <= q,
                unit > 0,
        ;
    }
    // Nor is it rounded up to the next one.
    assert(round24(n) < (t + 1) * 0x400_0000);
}

/// Rounding gives a nearest number of at most 24 significant bits, for every number: what it gives
/// is such a number, and no other, `s` times 2 to the `e`, is nearer. Of two that are equally
/// near, it gives the one that is an even multiple of their distance.
pub proof fn law_rounding_is_to_the_nearest(n: nat, s: nat, e: nat)
    requires
        s <= 0x100_0000,
    ensures
        ({
            let r = round24(n);
            let m = s * pow2(e);
            let near: int = if r <= n { n - r } else { r - n };
            let other: int = if m <= n { n - m } else { m - n };
            &&& exists|t: nat, j: nat| t <= 0x100_0000 && r == #[trigger] (t * pow2(j))
            &&& near <= other
            &&& near == other && m != r ==> exists|t: nat, j: nat|
                r == #[trigger] ((2 * t) * pow2(j)) && (m == r + pow2(j) || m + pow2(j) == r)
        }),
{
    lemma2_to64();
    lemma_excess(n);
    let k = excess_bits(n);
    let unit = pow2(k);
    lemma_pow2_pos(k);
    let q = n / unit;
    let rem = n % unit;
    lemma_fundamental_div_mod(n as int, unit as int);
    lemma_mul_is_commutative(unit as int, q as int);
    assert((q + 1) * unit == q * unit + unit) by (nonlinear_arith);
    let r = round24(n);
    let m = s * pow2(e);
    if r == q * unit {
        assert(q <= 0x100_0000 && r == q * pow2(k));
    } else {
        let t = (q + 1) as nat;
        assert(t <= 0x100_0000 && r == t * pow2(k));
    }
    if e >= k {
        // The other number is a multiple of the unit.
        let w = s * pow2((e - k) as nat);
        lemma_pow2_adds(k, (e - k) as nat);
        assert(m == w * unit) by (nonlinear_arith)
            requires
                m == s * pow2(e),
                pow2(e) == unit * pow2((e - k) as nat),
                w == s * pow2((e - k) as nat),
        ;
        lemma_nearest_multiple(n, w);
    } else {
        // The other number lies at or below the least one of this unit.
        let w: nat = 0x80_0000;
        let least = w * unit;
        assert(least <= q * unit) by (nonlinear_arith)
            requires
                least == w * unit,
                w <= q,
        ;
        lemma_pow2_unfold(k);
        if e < k - 1 {
            lemma_pow2_strictly_increases(e, (k - 1) as nat);
        }
        assert(m <= least) by (nonlinear_arith)
            requires
                m == s * pow2(e),
                s <= 0x100_0000,
                2 * pow2(e) <= unit,
                least == 0x80_0000 * unit,
        ;
        lemma_nearest_multiple(n, w);
    }
}

/// Of the multiples of its unit, rounding gives a nearest one, and of two the even one.
proof fn lemma_nearest_multiple(n: nat, w: nat)
    ensures
        ({
            let unit = pow2(excess_bits(n));
            let r = round24(n);
            let m = w * unit;
            let near: int = if r <= n { n - r } else { r - n };
            let other: int = if m <= n { n - m } else { m - n };
            &&& near <= other
            &&& near == other && m != r ==> exists|t: nat, j: nat|
                r == #[trigger] ((2 * t) * pow2(j)) && (m == r + pow2(j) || m + pow2(j) == r)
        }),
{
    let k = excess_bits(n);
    let unit = pow2(k) as int;
    lemma_pow2_pos(k);
    let q = n as int / unit;
    let rem = n as int % unit;
    let m = w * unit;
    let r = round24(n) as int;
    lemma_fundamental_div_mod(n as int, unit);
    lemma_mul_is_commutative(unit, q);
    assert((q + 1) * unit == q * unit + unit) by (nonlinear_arith);
    let d = w - q;
    assert(m == q * unit + d * unit) by (nonlinear_arith)
        requires
            m == w * unit,
            d == w - q,
    ;
    if d >= 2 {
        assert(d * unit >= 2 * unit) by (nonlinear_arith)
            requires
                d >= 2,
                unit > 0,
        ;
    } else if d == 1 {
        assert(d * unit == unit) by (nonlinear_arith)
            requires
                d == 1,
        ;
    } else if d == 0 {
        assert(d * unit == 0) by (nonlinear_arith)
            requires
                d == 0,
        ;
    } else {
        assert(d * unit <= -unit) by (nonlinear_arith)
            requires
                d <= -1,
                unit > 0,
        ;
    }
    let near: int = if r <= n { n - r } else { r - n };
    let other: int = if m <= n { n - m } else { m - n };
    if near == other && m != r {
        assert(2 * rem == unit);
        if q % 2 == 0 {
            let t = (q / 2) as nat;
            assert(2 * t == q);
            assert(round24(n) == (2 * t) * pow2(k));
        } else {
            let t = ((q + 1) / 2) as nat;
            assert(2 * t == q + 1);
            assert(round24(n) == (2 * t) * pow2(k));
        }
    }
}

/// The bit pattern is that of the rounded quotient: with the leading bit as its sign, the next
/// eight as its exponent, and the other 23 behind an implied one as its significand, it stands for
/// the significand times 2 to the exponent less 150, and that is the rounded `n` over 2 to the
/// `k`. Zero is positive.
pub proof fn law_bit_pattern_stands_for_the_quotient(n: int, k: nat)
    requires
        -pow2(k) <= n <= pow2(k),
        k <= 126,
    ensures
        n == 0 ==> single_bits(n, k) == 0,
        n != 0 ==> {
            let bits = single_bits(n, k);
            let magnitude = bits % 0x8000_0000;
            let exponent = magnitude / 0x80_0000;
            let significand = 0x80_0000 + magnitude % 0x80_0000;
            let whole: int = if n < 0 { -n } else { n };
            &&& 0 <= bits < 0x1_0000_0000
            &&& n < 0 <==> bits >= 0x8000_0000
            &&& exponent >= 1
            &&& significand * pow2(exponent as nat) * pow2(k) == round24(whole as nat) * pow2(150)
        },
{
    lemma2_to64();
    if n != 0 {
        let whole: nat = if n < 0 {
            (-n) as nat
        } else {
            n as nat
        };
        let m = round24(whole);
        lemma_single_bits_within_one(n, k);
        lemma_round24_below_power(whole, k);
        lemma_round24_near(whole);
        lemma_excess(whole);
        let x = excess_bits(whole);
        let unit = pow2(x);
        let q = whole / unit;
        if whole >= SIGNIFICAND_LIMIT {
            assert(m > 0) by (nonlinear_arith)
                requires
                    m >= q * unit,
                    q > 0,
                    unit > 0,
            ;
        }
        lemma_bit_length(m);
        lemma_significand(m);
        let bits = bit_length(m);
        if bits > k + 1 {
            lemma_pow2_strictly_increases(k, (bits - 1) as nat);
        }
        let exponent = 126 + bits - k;
        let significand: int = if bits <= 24 {
            (m * pow2((24 - bits) as nat)) as int
        } else {
            (m / pow2((bits - 24) as nat)) as int
        };
        let sign: int = if n < 0 { 0x8000_0000 } else { 0 };
        assert(single_bits(n, k) == sign + exponent * 0x80_0000 + (significand - 0x80_0000));
        assert(1 <= exponent <= 127);
        let magnitude = exponent * 0x80_0000 + (significand - 0x80_0000);
        assert(0 <= magnitude < 0x8000_0000);
        assert(single_bits(n, k) % 0x8000_0000 == magnitude);
        assert(magnitude / 0x80_0000 == exponent);
        assert(magnitude % 0x80_0000 == significand - 0x80_0000);
        lemma_pow2_adds(exponent as nat, k);
        let scale = pow2((exponent + k) as nat) as int;
        assert(significand * pow2(exponent as nat) * pow2(k) == significand * scale)
            by (nonlinear_arith)
            requires
                pow2(exponent as nat) * pow2(k) == scale,
        ;
        if bits <= 24 {
            lemma_pow2_adds((24 - bits) as nat, (126 + bits) as nat);
            assert(significand * scale == m * pow2(150)) by (nonlinear_arith)
                requires
                    significand == m * pow2((24 - bits) as nat),
                    pow2((24 - bits) as nat) * scale == pow2(150),
            ;
        } else {
            lemma_rounded_is_a_multiple(whole);
            let low = pow2((bits - 24) as nat) as int;
            lemma_pow2_pos((bits - 24) as nat);
            lemma_pow2_adds((bits - 24) as nat, 150);
            lemma_fundamental_div_mod(m as int, low);
            assert(m == low * significand);
            assert(significand * scale == m * pow2(150)) by (nonlinear_arith)
                requires
                    m == low * significand,
                    low * pow2(150) == scale,
            ;
        }
    }
}

/// What lies beyond the 24 leading bits of a rounded number is zero.
proof fn lemma_rounded_is_a_multiple(n: nat)
    requires
        bit_length(round24(n)) > 24,
    ensures
        round24(n) % pow2((bit_length(round24(n)) - 24) as nat) == 0,
{
    lemma2_to64();
    let m = round24(n);
    let x = excess_bits(n);
    let unit = pow2(x);
    lemma_pow2_pos(x);
    lemma_excess(n);
    lemma_bit_length(m);
    let bits = bit_length(m);
    let q = n / unit;
    let t: nat = if m == q * unit {
        q
    } else {
        (q + 1) as nat
    };
    assert(m == t * unit && t <= 0x100_0000);
    lemma_pow2_adds(x, 24);
    assert(t * unit <= 0x100_0000 * unit) by (nonlinear_arith)
        requires
            t <= 0x100_0000,
    ;
    assert(m <= pow2(x + 24));
    if bits > x + 25 {
        lemma_pow2_strictly_increases(x + 24, (bits - 1) as nat);
    }
    if bits == x + 25 {
        // Rounded up to the next power of two.
        assert(m == pow2(x + 24));
        lemma_pow2_adds(x + 1, 23);
        lemma_mod_multiples_basic(0x80_0000, pow2(x + 1) as int);
        lemma_mul_is_commutative(0x80_0000, pow2(x + 1) as int);
    } else {
        let low = pow2((bits - 24) as nat);
        let f = pow2((x - (bits - 24)) as nat);
        lemma_pow2_adds((bits - 24) as nat, (x - (bits - 24)) as nat);
        assert(m == (t * f) * low) by (nonlinear_arith)
            requires
                m == t * unit,
                unit == low * f,
        ;
        lemma_pow2_pos((bits - 24) as nat);
        lemma_mod_multiples_basic((t * f) as int, low as int);
    }
}

/// At every sample rate the latency is the whole part of the single-precision product of the rate
/// and 0.15, whose single-precision significand is 10066330 over 2 to the 26th.
pub proof fn law_latency_is_the_whole_part_of_the_product(sample_rate: nat)
    ensures
        ({
            let product = round24(10_066_330 * round24(sample_rate));
            let frames = latency_frames(sample_rate);
            frames * 0x400_0000 <= product < (frames + 1) * 0x400_0000
        }),
{
}

/// A number below 2 to the `24 + b` has at most `b` excess bits.
proof fn lemma_excess_is_small(n: nat, b: nat)
    requires
        n < SIGNIFICAND_LIMIT * pow2(b),
    ensures
        excess_bits(n) <= b,
    decreases b,
{
    lemma2_to64();
    if b == 0 {
    } else {
        lemma_pow2_unfold(b);
        if n >= SIGNIFICAND_LIMIT {
            lemma_excess_is_small(n / 2, (b - 1) as nat);
        }
    }
}

/// A positive number lies between the powers of two of its bit length.
proof fn lemma_bit_length(n: nat)
    requires
        n > 0,
    ensures
        bit_length(n) > 0,
        pow2((bit_length(n) - 1) as nat) <= n < pow2(bit_length(n)),
    decreases n,
{
    lemma2_to64();
    if n == 1 {
        assert(bit_length(0) == 0);
        assert(bit_length(1) == 1);
    } else {
        let half = n / 2;
        lemma_bit_length(half);
        lemma_pow2_unfold(bit_length(n));
        lemma_pow2_unfold(bit_length(half));
    }
}

/// Rounding does not lead beyond a power of two.
proof fn lemma_round24_below_power(n: nat, k: nat)
    requires
        n <= pow2(k),
    ensures
        round24(n) <= pow2(k),
{
    lemma2_to64();
    lemma_round24_near(n);
    if n >= SIGNIFICAND_LIMIT {
        let e = excess_bits(n);
        let unit = pow2(e);
        let q = n / unit;
        lemma_pow2_adds(e, 23);
        if k < e + 23 {
            lemma_pow2_strictly_increases(k, e + 23);
        }
        let m = pow2((k - e) as nat);
        lemma_pow2_adds(e, (k - e) as nat);
        lemma_fundamental_div_mod(n as int, unit as int);
        lemma_mul_is_commutative(unit as int, q as int);
        assert(unit * m == pow2(k));
        if q < m {
            assert((q + 1) * unit <= unit * m) by (nonlinear_arith)
                requires
                    q + 1 <= m,
            ;
            assert(q * unit <= (q + 1) * unit) by (nonlinear_arith);
        } else {
            assert(unit * m <= q * unit) by (nonlinear_arith)
                requires
                    m <= q,
            ;
            assert(n % unit == 0);
        }
    }
}

/// A quotient from -1 to 1 has a bit pattern from that of -1 to that of 1.
pub proof fn lemma_single_bits_within_one(n: int, k: nat)
    requires
        -pow2(k) <= n <= pow2(k),
        k <= 126,
    ensures
        n >= 0 ==> 0 <= single_bits(n, k) <= 0x3f80_0000,
        n < 0 ==> 0x8000_0000 <= single_bits(n, k) <= 0xbf80_0000,
{
    lemma2_to64();
    if n != 0 {
        let whole = if n < 0 {
            (-n) as nat
        } else {
            n as nat
        };
        let m = round24(whole);
        let bits = bit_length(m);
        lemma_round24_below_power(whole, k);
        lemma_round24_near(whole);
        lemma_excess(whole);
        if whole >= SIGNIFICAND_LIMIT {
            assert(m > 0) by (nonlinear_arith)
                requires
                    m >= (whole / pow2(excess_bits(whole))) * pow2(excess_bits(whole)),
                    whole / pow2(excess_bits(whole)) > 0,
                    pow2(excess_bits(whole)) > 0,
            ;
        }
        lemma_bit_length(m);
        // The exponent is at most that of one.
        if bits > k + 1 {
            lemma_pow2_strictly_increases(k, (bits - 1) as nat);
        }
        lemma_significand(m);
        if bits == k + 1 {
            assert(m == pow2(k));
            lemma_significand_of_power(k);
        }
    }
}

/// The significand that [`single_bits`] takes of a positive number has exactly 24 bits.
proof fn lemma_significand(m: nat)
    requires
        m > 0,
    ensures
        ({
            let bits = bit_length(m);
            let significand = if bits <= 24 {
                m * pow2((24 - bits) as nat)
            } else {
                m / pow2((bits - 24) as nat)
            };
            0x80_0000 <= significand < 0x100_0000
        }),
{
    lemma2_to64();
    let bits = bit_length(m);
    lemma_bit_length(m);
    if bits <= 24 {
        let scale = pow2((24 - bits) as nat);
        lemma_pow2_pos((24 - bits) as nat);
        lemma_pow2_adds((bits - 1) as nat, (24 - bits) as nat);
        lemma_pow2_adds(bits, (24 - bits) as nat);
        assert(pow2((bits - 1) as nat) * scale <= m * scale < pow2(bits) * scale)
            by (nonlinear_arith)
            requires
                pow2((bits - 1) as nat) <= m < pow2(bits),
                scale > 0,
        ;
    } else {
        let scale = pow2((bits - 24) as nat);
        lemma_pow2_pos((bits - 24) as nat);
        lemma_pow2_adds((bits - 24) as nat, 23);
        lemma_pow2_adds((bits - 24) as nat, 24);
        let q = m / scale;
        lemma_fundamental_div_mod(m as int, scale as int);
        assert(0x80_0000 <= q < 0x100_0000) by (nonlinear_arith)
            requires
                scale * 0x80_0000 <= m < scale * 0x100_0000,
                m == scale * q + m % scale,
                m % scale < scale,
                scale > 0,
        ;
    }
}

/// The significand of a power of two is the least one.
proof fn lemma_significand_of_power(k: nat)
    ensures
        k + 1 <= 24 ==> pow2(k) * pow2((24 - (k + 1)) as nat) == 0x80_0000,
        k + 1 > 24 ==> pow2(k) / pow2((k + 1 - 24) as nat) == 0x80_0000,
{
    lemma2_to64();
    if k + 1 <= 24 {
        lemma_pow2_adds(k, (23 - k) as nat);
    } else {
        let scale = pow2((k - 23) as nat);
        lemma_pow2_pos((k - 23) as nat);
        lemma_pow2_adds((k - 23) as nat, 23);
        lemma_div_by_multiple(0x80_0000, scale as int);
        lemma_mul_is_commutative(0x80_0000, scale as int);
    }
}

} // verus!
