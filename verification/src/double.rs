//! Binary64 values and non-negative binary64 arithmetic in exact integers: the conversions,
//! quotients, products and fixed-point renderings the overlay's readings
//! go through, each rounded as IEEE 754 binary64 rounds (nearest, ties to
//! even) and rendered as Rust's `{:.k}` renders (exact value, ties to even).

use vstd::prelude::*;
use vstd::string::*;
use crate::text::{decimal, digit, digit_char, zero_padded, push_decimal_wide, push_zero_padded};
use vstd::arithmetic::power2::{pow2, lemma_pow2_adds, lemma_pow2_pos, lemma_pow2_unfold, lemma_pow2_strictly_increases, lemma2_to64, lemma2_to64_rest};
use vstd::arithmetic::div_mod::lemma_fundamental_div_mod_converse;

verus! {

/// A finite non-negative binary64 value `mant * 2^exp`.
#[derive(Clone, Copy, PartialEq, Eq, Structural)]
pub struct Double {
    pub mant: u64,
    pub exp: i32,
}

/// 2^52, the least normalised binary64 significand.
pub const TWO_52: u128 = 0x10_0000_0000_0000;
/// 2^53, the bound of a normalised binary64 significand.
pub const TWO_53: u128 = 0x20_0000_0000_0000;

/// 2^52 as a 64-bit integer: the weight of a binary64 exponent field's lowest bit.
pub const FRACTION_UNIT: u64 = 0x10_0000_0000_0000;

/// A binary64 value as Rust formats it: a finite value with its sign, an
/// infinity with its sign, or NaN.
#[derive(Clone, Copy, PartialEq, Eq, Structural)]
pub enum Float64 {
    Finite { negative: bool, magnitude: Double },
    Infinite { negative: bool },
    NaN,
}

/// The magnitude of a finite binary64 value with exponent field `e`
/// (below 2047) and fraction field `f`.
pub open spec fn magnitude_of(e: u64, f: u64) -> Double {
    if e == 0 && f == 0 {
        Double { mant: 0, exp: 0 }
    } else if e == 0 {
        nearest(f as nat, 1, -1074)
    } else {
        Double { mant: (f + FRACTION_UNIT) as u64, exp: (e - 1075) as i32 }
    }
}

/// The value a binary64 bit pattern (`f64::to_bits`) holds.
pub open spec fn decoded(bits: u64) -> Float64 {
    let e = (bits / FRACTION_UNIT) % 2048;
    let f = bits % FRACTION_UNIT;
    let negative = bits >= 0x8000_0000_0000_0000;
    if e == 2047 {
        if f == 0 {
            Float64::Infinite { negative }
        } else {
            Float64::NaN
        }
    } else {
        Float64::Finite { negative, magnitude: magnitude_of(e, f) }
    }
}

/// The non-negative finite value `d`.
pub open spec fn reading_of(d: Double) -> Float64 {
    Float64::Finite { negative: false, magnitude: d }
}

/// Positive zero (`0.0`).
pub open spec fn positive_zero() -> Float64 {
    reading_of(Double { mant: 0, exp: 0 })
}

/// A finite value is in the form the operations take and small enough to
/// be printed by them.
pub open spec fn printable(v: Float64) -> bool {
    v matches Float64::Finite { magnitude, .. } ==> in_range(magnitude) && -1200 <= magnitude.exp
}

/// `v == 0.0` (either zero).
pub open spec fn float_zero(v: Float64) -> bool {
    v matches Float64::Finite { magnitude, .. } && magnitude.mant == 0
}

/// `v > 0.0`.
pub open spec fn float_positive(v: Float64) -> bool {
    ||| v matches Float64::Finite { negative, magnitude } && !negative && magnitude.mant > 0
    ||| v matches Float64::Infinite { negative } && !negative
}

/// `v / c` in binary64 for a positive finite `c`: a finite value keeps its
/// sign, an infinity and NaN stay as they are.
pub open spec fn float_div(v: Float64, c: Double) -> Float64 {
    match v {
        Float64::Finite { negative, magnitude } => Float64::Finite { negative, magnitude: spec_div(magnitude, c) },
        _ => v,
    }
}

/// `n / m` rounded to the nearest integer, ties to the even one.
pub open spec fn rhe(n: nat, m: nat) -> nat
    recommends
        m > 0,
{
    let q = n / m;
    let r = n % m;
    if 2 * r < m {
        q
    } else if 2 * r > m {
        q + 1
    } else if q % 2 == 0 {
        q
    } else {
        q + 1
    }
}

/// `2^52 <= (n / m) * 2^s < 2^53`: scaling `n / m` by `2^s` puts it in the
/// range of a binary64 significand (both sides are multiplied by `2^200` so
/// that negative `s` down to `-200` stay in the integers).
pub open spec fn binade(n: nat, m: nat, s: int) -> bool {
    &&& -200 <= s
    &&& pow2(252) * m <= n * pow2((200 + s) as nat)
    &&& n * pow2((200 + s) as nat) < pow2(253) * m
}

/// The binary exponent shift that puts `n / m` into significand range.
pub open spec fn scale_of(n: nat, m: nat) -> int {
    choose|s: int| binade(n, m, s)
}

/// The significand of `n / m` scaled by `2^s`, rounded to nearest, ties to even.
pub open spec fn round_at(n: nat, m: nat, s: int) -> nat {
    rhe(n * pow2((200 + s) as nat), m * pow2(200))
}

/// The binary64 value nearest to `(n / m) * 2^e` (ties to an even significand).
pub open spec fn nearest(n: nat, m: nat, e: int) -> Double {
    if n == 0 {
        Double { mant: 0, exp: 0 }
    } else {
        let s = scale_of(n, m);
        Double { mant: round_at(n, m, s) as u64, exp: (e - s) as i32 }
    }
}

/// A value in the form the operations produce: zero, or a significand in
/// `[2^52, 2^53]`, with an exponent far from the limits of the representation.
pub open spec fn in_range(d: Double) -> bool {
    &&& d.mant == 0 || (TWO_52 <= d.mant <= TWO_53)
    &&& -20000 <= d.exp <= 20000
}

/// `x` as binary64 (`x as f64`).
pub open spec fn spec_from_u64(x: u64) -> Double {
    nearest(x as nat, 1, 0)
}

/// `a / b` in binary64.
pub open spec fn spec_div(a: Double, b: Double) -> Double {
    nearest(a.mant as nat, b.mant as nat, a.exp - b.exp)
}

/// `a * b` in binary64.
pub open spec fn spec_mul(a: Double, b: Double) -> Double {
    nearest((a.mant * b.mant) as nat, 1, a.exp + b.exp)
}

/// 10^k.
pub open spec fn pow10(k: nat) -> nat
    decreases k,
{
    if k == 0 { 1 } else { 10 * pow10((k - 1) as nat) }
}

/// The value of `d` times `10^k`, rounded to the nearest integer, ties to even:
/// the digits `{:.k}` prints.
pub open spec fn fixed_scaled(d: Double, k: nat) -> nat {
    rhe(d.mant as nat * pow10(k) * pow2((1200 + d.exp) as nat), pow2(1200))
}

/// Scaling numerator and denominator alike does not change the rounding.
pub proof fn lemma_rhe_scale(x: nat, y: nat, c: nat)
    requires
        y > 0,
        c > 0,
    ensures
        rhe(x * c, y * c) == rhe(x, y),
{
    let q = x / y;
    let r = x % y;
    assert(x == q * y + r && 0 <= r < y) by (nonlinear_arith)
        requires
            q == x / y,
            r == x % y,
            y > 0,
    {
    }
    assert(x * c == q * (y * c) + r * c) by (nonlinear_arith)
        requires
            x == q * y + r,
    {
    }
    assert(0 <= r * c < y * c) by (nonlinear_arith)
        requires
            0 <= r < y,
            c > 0,
    {
    }
    lemma_fundamental_div_mod_converse((x * c) as int, (y * c) as int, q as int, (r * c) as int);
    assert(2 * (r * c) < y * c <==> 2 * r < y) by (nonlinear_arith)
        requires
            c > 0,
    {
    }
    assert(2 * (r * c) > y * c <==> 2 * r > y) by (nonlinear_arith)
        requires
            c > 0,
    {
    }
}

/// The binade scale of `n / m` is unique.
pub proof fn lemma_binade_unique(n: nat, m: nat, s1: int, s2: int)
    requires
        binade(n, m, s1),
        binade(n, m, s2),
    ensures
        s1 == s2,
{
    if s1 < s2 {
        lemma_binade_order(n, m, s1, s2);
    } else if s2 < s1 {
        lemma_binade_order(n, m, s2, s1);
    }
}

proof fn lemma_binade_order(n: nat, m: nat, s1: int, s2: int)
    requires
        binade(n, m, s1),
        s1 < s2,
    ensures
        !binade(n, m, s2),
{
    let a = (200 + s1) as nat;
    let b = (200 + s2) as nat;
    let d = (s2 - s1) as nat;
    lemma_pow2_adds(a, d);
    assert(b == a + d);
    lemma_pow2_unfold(d);
    lemma_pow2_pos((d - 1) as nat);
    lemma_pow2_adds(252, 1);
    lemma_pow2_unfold(1);
    reveal_pow2_0();
    assert(pow2(d) >= 2);
    assert(n * pow2(b) == (n * pow2(a)) * pow2(d)) by (nonlinear_arith)
        requires
            pow2(b) == pow2(a) * pow2(d),
    {
    }
    assert((n * pow2(a)) * pow2(d) >= (pow2(252) * m) * 2) by (nonlinear_arith)
        requires
            pow2(252) * m <= n * pow2(a),
            pow2(d) >= 2,
    {
    }
    assert(pow2(253) == pow2(252) * 2);
    assert((pow2(252) * m) * 2 == pow2(253) * m) by (nonlinear_arith)
        requires
            pow2(253) == pow2(252) * 2,
    {
    }
}

proof fn reveal_pow2_0()
    ensures
        pow2(0) == 1,
{
    lemma2_to64();
}

/// 2^106, the largest numerator `round_ratio` takes.
pub const TWO_106: u128 = 0x400_0000_0000_0000_0000_0000_0000;

proof fn lemma_consts()
    ensures
        pow2(52) == TWO_52,
        pow2(53) == TWO_53,
        pow2(0) == 1,
        pow2(1) == 2,
{
    lemma2_to64();
    lemma2_to64_rest();
}

proof fn lemma_pow2_ge(a: nat, b: nat)
    requires
        a <= b,
    ensures
        pow2(a) <= pow2(b),
{
    if a < b {
        lemma_pow2_strictly_increases(a, b);
    }
}

/// From `2^52 * D <= N < 2^53 * D` with `N = n * 2^a`, `D = m * 2^b`, the
/// shift `a - b` puts `n / m` into significand range and the significand is
/// `N / D` rounded.
proof fn lemma_binade_from(n: nat, m: nat, a: nat, b: nat, big_n: nat, big_d: nat)
    requires
        big_n == n * pow2(a),
        big_d == m * pow2(b),
        m > 0,
        b <= 200,
        a <= 200,
        TWO_52 * big_d <= big_n,
        big_n < TWO_53 * big_d,
    ensures
        binade(n, m, a - b),
        round_at(n, m, a - b) == rhe(big_n, big_d),
{
    lemma_consts();
    let c = pow2((200 - b) as nat);
    lemma_pow2_pos((200 - b) as nat);
    lemma_pow2_pos(b);
    lemma_pow2_adds(a, (200 - b) as nat);
    lemma_pow2_adds(b, (200 - b) as nat);
    lemma_pow2_adds(52, 200);
    lemma_pow2_adds(53, 200);
    let s = a - b;
    assert((200 + s) as nat == a + (200 - b) as nat);
    assert(big_n * c == n * pow2((200 + s) as nat)) by (nonlinear_arith)
        requires
            big_n == n * pow2(a),
            pow2((200 + s) as nat) == pow2(a) * c,
    {
    }
    assert(big_d * c == m * pow2(200)) by (nonlinear_arith)
        requires
            big_d == m * pow2(b),
            pow2(200) == pow2(b) * c,
    {
    }
    assert(TWO_52 * big_d * c == pow2(252) * m) by (nonlinear_arith)
        requires
            big_d * c == m * pow2(200),
            pow2(252) == pow2(52) * pow2(200),
            pow2(52) == TWO_52,
    {
    }
    assert(TWO_53 * big_d * c == pow2(253) * m) by (nonlinear_arith)
        requires
            big_d * c == m * pow2(200),
            pow2(253) == pow2(53) * pow2(200),
            pow2(53) == TWO_53,
    {
    }
    assert(TWO_52 * big_d * c <= big_n * c) by (nonlinear_arith)
        requires
            TWO_52 * big_d <= big_n,
            c > 0,
    {
    }
    assert(big_n * c < TWO_53 * big_d * c) by (nonlinear_arith)
        requires
            big_n < TWO_53 * big_d,
            c > 0,
    {
    }
    assert(big_d > 0) by (nonlinear_arith)
        requires
            big_d == m * pow2(b),
            m > 0,
            pow2(b) > 0,
    {
    }
    lemma_rhe_scale(big_n, big_d, c);
}

/// `n / d` rounded to the nearest integer, ties to even.
pub fn round_half_even(n: u128, d: u128) -> (r: u128)
    requires
        d > 0,
    ensures
        r == rhe(n as nat, d as nat),
{
    let q = n / d;
    let rem = n % d;
    proof {
        assert(q * d + rem == n && rem < d) by (nonlinear_arith)
            requires
                q == n / d,
                rem == n % d,
                d > 0,
        {
        }
        if d >= 2 {
            assert(q <= n / 2) by (nonlinear_arith)
                requires
                    q * d + rem == n,
                    d >= 2,
                    rem >= 0,
            {
            }
        }
    }
    if rem < d - rem {
        q
    } else if rem > d - rem {
        q + 1
    } else if q % 2 == 0 {
        q
    } else {
        q + 1
    }
}

/// `(n / m) * 2^e` rounded to binary64.
pub(crate) fn round_ratio(n: u128, m: u128, e: i32) -> (r: Double)
    requires
        n <= TWO_106,
        0 < m <= TWO_53,
        -45000 <= e <= 45000,
    ensures
        r == nearest(n as nat, m as nat, e as int),
        r.mant <= TWO_53,
        n > 0 ==> e - 110 <= r.exp <= e + 60,
        n > 0 ==> r.mant >= TWO_52,
        n > 0 ==> binade(n as nat, m as nat, e - r.exp),
{
    proof {
        lemma_consts();
    }
    if n == 0 {
        return Double { mant: 0, exp: 0 };
    }
    proof {
        lemma_pow2_pos(0);
    }
    let mut big_n: u128 = n;
    let mut big_d: u128 = m;
    let mut a: u32 = 0;
    let mut b: u32 = 0;
    while big_n >= TWO_53 * big_d
        invariant
            1 <= n <= TWO_106,
            0 < m <= TWO_53,
            big_n == n,
            a == 0,
            big_d == m * pow2(b as nat),
            pow2(b as nat) <= big_d <= 2 * TWO_53,
            big_d > 0,
            b > 0 ==> TWO_52 * big_d <= big_n,
            b <= 60,
            pow2(52) == TWO_52,
            pow2(53) == TWO_53,
        decreases TWO_106 - big_d,
    {
        proof {
            lemma_pow2_unfold((b + 1) as nat);
            assert(big_d <= TWO_53) by (nonlinear_arith)
                requires
                    TWO_53 * big_d <= n,
                    n <= TWO_106,
                    TWO_106 == TWO_53 * TWO_53,
            {
            }
            assert(m * pow2((b + 1) as nat) == 2 * big_d) by (nonlinear_arith)
                requires
                    big_d == m * pow2(b as nat),
                    pow2((b + 1) as nat) == 2 * pow2(b as nat),
            {
            }
            if b >= 60 {
                lemma_pow2_ge(60, b as nat);
                lemma2_to64_rest();
                assert(false);
            }
        }
        big_d = big_d * 2;
        b = b + 1;
    }
    while big_n < TWO_52 * big_d
        invariant
            1 <= n <= TWO_106,
            0 < m <= TWO_53,
            big_n == n * pow2(a as nat),
            big_d == m * pow2(b as nat),
            pow2(a as nat) <= big_n,
            big_n > 0,
            big_d <= 2 * TWO_53,
            big_n < TWO_53 * big_d,
            b > 0 ==> a == 0,
            b > 0 ==> TWO_52 * big_d <= big_n,
            a <= 110,
            b <= 60,
            pow2(52) == TWO_52,
            pow2(53) == TWO_53,
        decreases TWO_53 * big_d - big_n,
    {
        proof {
            lemma_pow2_unfold((a + 1) as nat);
            assert(n * pow2((a + 1) as nat) == 2 * big_n) by (nonlinear_arith)
                requires
                    big_n == n * pow2(a as nat),
                    pow2((a + 1) as nat) == 2 * pow2(a as nat),
            {
            }
            if b > 0 {
                assert(false);
            }
            if a >= 106 {
                lemma_pow2_ge(106, a as nat);
                lemma_pow2_adds(53, 53);
                assert(pow2(106) == TWO_106);
                assert(TWO_52 * big_d <= TWO_106) by (nonlinear_arith)
                    requires
                        big_d <= 2 * TWO_53,
                {
                }
                assert(false);
            }
        }
        big_n = big_n * 2;
        a = a + 1;
    }
    proof {
        lemma_binade_from(n as nat, m as nat, a as nat, b as nat, big_n as nat, big_d as nat);
        let s = scale_of(n as nat, m as nat);
        lemma_binade_unique(n as nat, m as nat, s, a - b);
    }
    let mant = round_half_even(big_n, big_d);
    proof {
        assert(big_n / big_d < TWO_53) by (nonlinear_arith)
            requires
                big_n < TWO_53 * big_d,
                big_d > 0,
        {
        }
        assert(big_n / big_d >= TWO_52) by (nonlinear_arith)
            requires
                TWO_52 * big_d <= big_n,
                big_d > 0,
        {
        }
    }
    Double { mant: mant as u64, exp: e - (a as i32 - b as i32) }
}

proof fn lemma_pow2_lt_inv(a: nat, b: nat)
    requires
        pow2(a) < pow2(b),
    ensures
        a < b,
{
    if a >= b {
        lemma_pow2_ge(b, a);
    }
}

/// If `n / m >= 2^(y - x)` the shift into significand range is at most `52 + x - y`.
pub proof fn lemma_scale_upper(n: nat, m: nat, s: int, x: nat, y: nat)
    requires
        binade(n, m, s),
        m > 0,
        n * pow2(x) >= m * pow2(y),
    ensures
        s <= 52 + x - y,
{
    let t = (200 + s) as nat;
    lemma_pow2_adds(y, t);
    lemma_pow2_adds(253, x);
    lemma_pow2_pos(x);
    lemma_pow2_pos(t);
    assert(m * pow2(y + t) < m * pow2(253 + x)) by (nonlinear_arith)
        requires
            n * pow2(t) < pow2(253) * m,
            n * pow2(x) >= m * pow2(y),
            pow2(y + t) == pow2(y) * pow2(t),
            pow2(253 + x) == pow2(253) * pow2(x),
            pow2(x) > 0,
            pow2(t) > 0,
    {
    }
    assert(pow2(y + t) < pow2(253 + x)) by (nonlinear_arith)
        requires
            m * pow2(y + t) < m * pow2(253 + x),
            m > 0,
    {
    }
    lemma_pow2_lt_inv(y + t, 253 + x);
}

/// If `n / m < 2^(y - x)` the shift into significand range is at least `53 + x - y`.
pub proof fn lemma_scale_lower(n: nat, m: nat, s: int, x: nat, y: nat)
    requires
        binade(n, m, s),
        m > 0,
        n * pow2(x) < m * pow2(y),
    ensures
        s >= 53 + x - y,
{
    let t = (200 + s) as nat;
    lemma_pow2_adds(y, t);
    lemma_pow2_adds(252, x);
    lemma_pow2_pos(x);
    lemma_pow2_pos(t);
    assert(m * pow2(252 + x) < m * pow2(y + t)) by (nonlinear_arith)
        requires
            pow2(252) * m <= n * pow2(t),
            n * pow2(x) < m * pow2(y),
            pow2(y + t) == pow2(y) * pow2(t),
            pow2(252 + x) == pow2(252) * pow2(x),
            pow2(x) > 0,
            pow2(t) > 0,
    {
    }
    assert(pow2(252 + x) < pow2(y + t)) by (nonlinear_arith)
        requires
            m * pow2(252 + x) < m * pow2(y + t),
            m > 0,
    {
    }
    lemma_pow2_lt_inv(252 + x, y + t);
}

impl Double {
    /// Zero.
    pub fn zero() -> (r: Double)
        ensures
            r == (Double { mant: 0, exp: 0 }),
            in_range(r),
    {
        Double { mant: 0, exp: 0 }
    }

    /// Whether the value is zero (`== 0.0`).
    pub fn is_zero(&self) -> (r: bool)
        ensures
            r == (self.mant == 0),
    {
        self.mant == 0
    }

    /// `x as f64`: exact below 2^53, rounded to nearest (ties to even) above.
    pub fn from_u64(x: u64) -> (r: Double)
        ensures
            r == spec_from_u64(x),
            in_range(r),
            x > 0 ==> -52 <= r.exp <= 11,
            r.mant == 0 <==> x == 0,
            x == 0 ==> r.exp == 0,
            forall|j: nat| #[trigger] pow2(j) <= x < pow2(j + 1) ==> r.exp == j - 52,
    {
        proof {
            lemma_consts();
            lemma2_to64();
        }
        let r = round_ratio(x as u128, 1, 0);
        proof {
            if x > 0 {
                let s = 0 - r.exp;
                lemma_scale_upper(x as nat, 1, s, 0, 0);
                assert(x < pow2(64));
                lemma_scale_lower(x as nat, 1, s, 0, 64);
                assert forall|j: nat| #[trigger] pow2(j) <= x < pow2(j + 1) implies r.exp == j - 52 by {
                    lemma_scale_upper(x as nat, 1, s, 0, j);
                    lemma_scale_lower(x as nat, 1, s, 0, j + 1);
                }
            } else {
                assert forall|j: nat| #[trigger] pow2(j) <= x < pow2(j + 1) implies r.exp == j - 52 by {
                    lemma_pow2_pos(j);
                }
            }
        }
        r
    }

    /// `self / other` in binary64.
    pub fn div(&self, other: &Double) -> (r: Double)
        requires
            in_range(*self),
            in_range(*other),
            other.mant > 0,
        ensures
            r == spec_div(*self, *other),
            r.mant == 0 <==> self.mant == 0,
            r.mant <= TWO_53,
            self.mant > 0 ==> TWO_52 <= r.mant,
            self.mant > 0 ==> self.exp - other.exp - 53 <= r.exp <= self.exp - other.exp - 51,
            self.mant == 0 ==> r.exp == 0,
            in_range(*self) && -19000 <= self.exp - other.exp <= 19000 ==> in_range(r),
    {
        proof {
            lemma_consts();
        }
        let r = round_ratio(self.mant as u128, other.mant as u128, self.exp - other.exp);
        proof {
            if self.mant > 0 {
                let s = (self.exp - other.exp) - r.exp;
                lemma_scale_upper(self.mant as nat, other.mant as nat, s, 1, 0);
                lemma2_to64();
                assert(self.mant * pow2(0) < other.mant * pow2(2)) by (nonlinear_arith)
                    requires
                        self.mant <= TWO_53,
                        other.mant >= TWO_52,
                        pow2(0) == 1,
                        pow2(2) == 4,
                        TWO_53 == 2 * TWO_52,
                {
                }
                lemma_scale_lower(self.mant as nat, other.mant as nat, s, 0, 2);
            }
        }
        r
    }

    /// `self * other` in binary64.
    pub fn mul(&self, other: &Double) -> (r: Double)
        requires
            in_range(*self),
            in_range(*other),
        ensures
            r == spec_mul(*self, *other),
            r.mant == 0 <==> (self.mant == 0 || other.mant == 0),
            r.mant <= TWO_53,
            r.mant > 0 ==> TWO_52 <= r.mant,
            self.mant > 0 && other.mant > 0 ==> self.exp + other.exp + 52 <= r.exp <= self.exp + other.exp + 54,
            self.mant == 0 || other.mant == 0 ==> r.exp == 0,
            -19000 <= self.exp + other.exp <= 19000 ==> in_range(r),
    {
        proof {
            lemma_consts();
            lemma_pow2_adds(52, 52);
            lemma_pow2_adds(53, 53);
        }
        proof {
            assert(self.mant * other.mant <= TWO_53 * TWO_53) by (nonlinear_arith)
                requires
                    self.mant <= TWO_53,
                    other.mant <= TWO_53,
            {
            }
        }
        let n: u128 = self.mant as u128 * other.mant as u128;
        proof {
            assert(n <= TWO_106) by (nonlinear_arith)
                requires
                    n == self.mant * other.mant,
                    self.mant <= TWO_53,
                    other.mant <= TWO_53,
                    TWO_106 == TWO_53 * TWO_53,
            {
            }
        }
        let r = round_ratio(n, 1, self.exp + other.exp);
        proof {
            if self.mant > 0 && other.mant > 0 {
                let s = (self.exp + other.exp) - r.exp;
                assert(n >= pow2(104)) by (nonlinear_arith)
                    requires
                        n == self.mant * other.mant,
                        self.mant >= TWO_52,
                        other.mant >= TWO_52,
                        pow2(104) == pow2(52) * pow2(52),
                        pow2(52) == TWO_52,
                {
                }
                lemma_pow2_adds(53, 54);
                lemma_pow2_unfold(54);
                assert(n < pow2(107)) by (nonlinear_arith)
                    requires
                        n <= TWO_106,
                        pow2(107) == pow2(53) * pow2(54),
                        pow2(53) == TWO_53,
                        pow2(106) == pow2(53) * pow2(53),
                        pow2(54) == pow2(53) * 2,
                {
                }
                lemma_scale_upper(n as nat, 1, s, 0, 104);
                lemma_scale_lower(n as nat, 1, s, 0, 107);
            } else {
                assert(n == 0) by (nonlinear_arith)
                    requires
                        n == self.mant * other.mant,
                        self.mant == 0 || other.mant == 0,
                {
                }
            }
        }
        r
    }
}

/// What `{:.k}` prints for a value whose `10^k`-scaled rounding is `t`:
/// the integer part, then (for `k > 0`) a point and exactly `k` digits.
pub open spec fn fixed_text(t: nat, k: nat) -> Seq<char> {
    if k == 0 {
        decimal(t)
    } else {
        decimal(t / pow10(k)) + seq!['.'] + zero_padded(t % pow10(k), k)
    }
}

/// What `format!("{:.k}", d)` prints.
pub open spec fn spec_fixed(d: Double, k: nat) -> Seq<char> {
    fixed_text(fixed_scaled(d, k), k)
}

/// What `format!("{:.k}", v)` prints: a minus sign before a negative
/// value (zero too), `inf` for an infinity and `NaN` for NaN.
pub open spec fn float_fixed(v: Float64, k: nat) -> Seq<char> {
    match v {
        Float64::Finite { negative, magnitude } => if negative {
            seq!['-'] + spec_fixed(magnitude, k)
        } else {
            spec_fixed(magnitude, k)
        },
        Float64::Infinite { negative } => if negative {
            seq!['-', 'i', 'n', 'f']
        } else {
            seq!['i', 'n', 'f']
        },
        Float64::NaN => seq!['N', 'a', 'N'],
    }
}

fn pow10_exec(k: u32) -> (r: u128)
    requires
        k <= 3,
    ensures
        r == pow10(k as nat),
        1 <= r <= 1000,
{
    proof {
        reveal_with_fuel(pow10, 4);
    }
    if k == 0 {
        1
    } else if k == 1 {
        10
    } else if k == 2 {
        100
    } else {
        1000
    }
}

fn pow2_exec(e: u32) -> (r: u128)
    requires
        e <= 120,
    ensures
        r == pow2(e as nat),
{
    let mut p: u128 = 1;
    let mut i: u32 = 0;
    proof {
        lemma_consts();
    }
    while i < e
        invariant
            i <= e,
            e <= 120,
            p == pow2(i as nat),
        decreases e - i,
    {
        proof {
            lemma_pow2_unfold((i + 1) as nat);
            lemma_pow2_ge((i + 1) as nat, 120);
            lemma_pow2_bound_120();
        }
        p = p * 2;
        i = i + 1;
    }
    p
}

proof fn lemma_pow2_bound_120()
    ensures
        pow2(120) < 0x1_0000_0000_0000_0000_0000_0000_0000_0000,
{
    lemma_pow2_adds(60, 60);
    lemma2_to64_rest();
    assert(pow2(120) == pow2(60) * pow2(60));
}

proof fn lemma_rhe_one(x: nat)
    ensures
        rhe(x, 1) == x,
{
}

/// The value of decimal digits stored least significant first.
pub open spec fn digits_val(s: Seq<u8>) -> nat
    decreases s.len(),
{
    if s.len() == 0 {
        0
    } else {
        s[0] as nat + 10 * digits_val(s.drop_first())
    }
}

/// Decimal digits stored least significant first, written most significant first.
pub open spec fn digits_text(s: Seq<u8>) -> Seq<char>
    decreases s.len(),
{
    if s.len() == 0 {
        Seq::empty()
    } else {
        digits_text(s.drop_first()).push(digit_char(s[0] as nat))
    }
}

proof fn lemma_pow10_pos(k: nat)
    ensures
        pow10(k) > 0,
    decreases k,
{
    if k > 0 {
        lemma_pow10_pos((k - 1) as nat);
    }
}

/// A non-empty run of decimal digits whose most significant digit is not zero.
pub open spec fn digits_wf(s: Seq<u8>) -> bool {
    &&& s.len() > 0
    &&& forall|i: int| 0 <= i < s.len() ==> s[i] < 10
    &&& s.last() != 0
}

proof fn lemma_digits_push(s: Seq<u8>, x: u8)
    ensures
        digits_val(s.push(x)) == digits_val(s) + x as nat * pow10(s.len()),
    decreases s.len(),
{
    let sx = s.push(x);
    if s.len() == 0 {
        assert(sx.drop_first() =~= Seq::<u8>::empty());
        assert(digits_val(sx.drop_first()) == 0);
        assert(sx[0] == x);
        assert(digits_val(sx) == x as nat);
        assert(pow10(0) == 1);
        assert(digits_val(s) == 0);
    } else {
        assert(sx.drop_first() =~= s.drop_first().push(x));
        assert(sx[0] == s[0]);
        lemma_digits_push(s.drop_first(), x);
        let p = pow10((s.len() - 1) as nat);
        assert(pow10(s.len()) == 10 * p);
        let a = digits_val(s.drop_first());
        assert(digits_val(s.drop_first().push(x)) == a + x as nat * p);
        assert(digits_val(sx) == s[0] as nat + 10 * (a + x as nat * p));
        assert(10 * (a + x as nat * p) == 10 * a + x as nat * (10 * p)) by (nonlinear_arith);
    }
}

proof fn lemma_digits_decimal(s: Seq<u8>)
    requires
        digits_wf(s),
    ensures
        digits_val(s) >= 1,
        decimal(digits_val(s)) == digits_text(s),
    decreases s.len(),
{
    let t = s.drop_first();
    if s.len() == 1 {
        assert(t =~= Seq::<u8>::empty());
        assert(digits_val(t) == 0);
        assert(digits_text(t) =~= Seq::<char>::empty());
        assert(digits_val(s) == s[0] as nat);
        assert(s[0] == s.last());
        assert(digits_text(s) =~= seq![digit_char(s[0] as nat)]);
    } else {
        assert(t.last() == s.last());
        assert forall|i: int| 0 <= i < t.len() implies t[i] < 10 by {
            assert(t[i] == s[i + 1]);
        }
        lemma_digits_decimal(t);
        let v = digits_val(s);
        let a = digits_val(t);
        assert(v == s[0] as nat + 10 * a);
        assert(v / 10 == a && v % 10 == s[0] as nat) by (nonlinear_arith)
            requires
                v == s[0] as nat + 10 * a,
                s[0] < 10,
        {
        }
        assert(v >= 10);
        assert(decimal(v) == decimal(v / 10).push(digit_char(v % 10)));
    }
}

/// The digits of `n`, least significant first.
fn digits_of(n: u64) -> (v: Vec<u8>)
    requires
        n > 0,
    ensures
        digits_wf(v@),
        digits_val(v@) == n,
{
    let mut v: Vec<u8> = Vec::new();
    let mut m: u64 = n;
    proof {
        assert(digits_val(v@) == 0);
        assert(pow10(v.len() as nat) == 1);
        assert(digits_val(v@) + pow10(v.len() as nat) * m == n);
    }
    while m > 0
        invariant
            forall|i: int| 0 <= i < v.len() ==> v@[i] < 10,
            digits_val(v@) + pow10(v.len() as nat) * m == n,
            v.len() == 0 ==> m == n,
            n > 0,
            m == 0 ==> v.len() > 0 && v@.last() != 0,
        decreases m,
    {
        let d: u8 = (m % 10) as u8;
        let ghost old_v = v@;
        let ghost old_m = m;
        proof {
            lemma_digits_push(v@, d);
            let p = pow10(v.len() as nat);
            assert(pow10((v.len() + 1) as nat) == 10 * p);
            assert(p * m == p * (d as nat) + (10 * p) * (m / 10) as nat) by (nonlinear_arith)
                requires
                    d == m % 10,
            {
            }
        }
        v.push(d);
        m = m / 10;
        proof {
            assert(v@ == old_v.push(d));
            let p = pow10(old_v.len());
            assert(digits_val(v@) == digits_val(old_v) + d as nat * p);
            assert(pow10(v.len() as nat) == 10 * p);
            assert(v@.last() == d);
            assert(digits_val(v@) + pow10(v.len() as nat) * m == n) by (nonlinear_arith)
                requires
                    digits_val(v@) == digits_val(old_v) + d as nat * p,
                    pow10(v.len() as nat) == 10 * p,
                    digits_val(old_v) + p * old_m == n,
                    p * old_m == p * (d as nat) + (10 * p) * m,
            {
            }
        }
    }
    v
}

/// Twice the value of the digits.
fn double_digits(s: &Vec<u8>) -> (r: Vec<u8>)
    requires
        digits_wf(s@),
    ensures
        digits_wf(r@),
        digits_val(r@) == 2 * digits_val(s@),
{
    let mut r: Vec<u8> = Vec::new();
    let mut carry: u8 = 0;
    let mut i: usize = 0;
    proof {
        assert(s@.take(0) =~= Seq::<u8>::empty());
        assert(pow10(0) == 1);
    }
    while i < s.len()
        invariant
            digits_wf(s@),
            i <= s.len(),
            r.len() == i,
            carry <= 1,
            forall|j: int| 0 <= j < r.len() ==> r@[j] < 10,
            digits_val(r@) + carry as nat * pow10(i as nat) == 2 * digits_val(s@.take(i as int)),
            i == s.len() && carry == 0 ==> r@.last() != 0,
        decreases s.len() - i,
    {
        let ghost old_carry = carry;
        let x: u8 = 2 * s[i] + carry;
        let d: u8 = x % 10;
        proof {
            lemma_digits_push(r@, d);
            assert(s@.take(i + 1) =~= s@.take(i as int).push(s@[i as int]));
            lemma_digits_push(s@.take(i as int), s@[i as int]);
            let p = pow10(i as nat);
            assert(pow10((i + 1) as nat) == 10 * p);
            assert(d as nat * p + (x / 10) as nat * (10 * p) == (2 * s@[i as int] as nat + carry as nat) * p) by (nonlinear_arith)
                requires
                    x == 2 * s@[i as int] + carry,
                    d == x % 10,
            {
            }
            if i + 1 == s.len() {
                assert(s@[i as int] == s@.last());
            }
        }
        let ghost old_r = r@;
        r.push(d);
        carry = x / 10;
        i = i + 1;
        proof {
            assert(r@ == old_r.push(d));
            let p = pow10(old_r.len());
            assert(digits_val(r@) == digits_val(old_r) + d as nat * p);
            assert(pow10(i as nat) == 10 * p);
            assert(digits_val(s@.take(i as int)) == digits_val(s@.take(i - 1)) + s@[i - 1] as nat * p);
            assert(digits_val(r@) + carry as nat * pow10(i as nat) == 2 * digits_val(s@.take(i as int))) by (nonlinear_arith)
                requires
                    digits_val(r@) == digits_val(old_r) + d as nat * p,
                    pow10(i as nat) == 10 * p,
                    digits_val(s@.take(i as int)) == digits_val(s@.take(i - 1)) + s@[i - 1] as nat * p,
                    digits_val(old_r) + old_carry as nat * p == 2 * digits_val(s@.take(i - 1)),
                    d as nat * p + carry as nat * (10 * p) == (2 * s@[i - 1] as nat + old_carry as nat) * p,
            {
            }
        }
    }
    proof {
        assert(s@.take(s.len() as int) =~= s@);
    }
    if carry > 0 {
        proof {
            lemma_digits_push(r@, carry);
        }
        r.push(carry);
    }
    r
}

/// Appends the decimal rendering of the integer `mant * 2^exp`.
fn push_scaled_integer(out: &mut String, mant: u64, exp: u32)
    requires
        mant > 0,
    ensures
        final(out)@ == old(out)@ + decimal(mant as nat * pow2(exp as nat)),
{
    let mut v = digits_of(mant);
    let mut j: u32 = 0;
    proof {
        lemma_consts();
    }
    while j < exp
        invariant
            digits_wf(v@),
            j <= exp,
            digits_val(v@) == mant as nat * pow2(j as nat),
        decreases exp - j,
    {
        v = double_digits(&v);
        proof {
            lemma_pow2_unfold((j + 1) as nat);
            assert(2 * (mant as nat * pow2(j as nat)) == mant as nat * (2 * pow2(j as nat))) by (nonlinear_arith);
        }
        j = j + 1;
    }
    let ghost base = out@;
    let mut i: usize = v.len();
    proof {
        assert(v@.skip(v.len() as int) =~= Seq::<u8>::empty());
    }
    while i > 0
        invariant
            digits_wf(v@),
            i <= v.len(),
            out@ == base + digits_text(v@.skip(i as int)),
        decreases i,
    {
        i = i - 1;
        out.push(digit(v[i] as u64));
        proof {
            assert(v@.skip(i as int).drop_first() =~= v@.skip(i + 1));
            assert(v@.skip(i as int)[0] == v@[i as int]);
            assert(out@ =~= base + digits_text(v@.skip(i as int)));
        }
    }
    proof {
        assert(v@.skip(0) =~= v@);
        lemma_digits_decimal(v@);
    }
}

impl Double {
    /// `format!("{:.k}", self)`.
    pub fn fixed(&self, k: u32) -> (r: String)
        requires
            in_range(*self),
            -1200 <= self.exp,
            k <= 3,
        ensures
            r@ == spec_fixed(*self, k as nat),
    {
        if self.exp > 60 {
            return self.fixed_large(k);
        }
        let ten = pow10_exec(k);
        let m = self.mant as u128;
        proof {
            lemma_consts();
            lemma_pow2_pos(1200);
        }
        let t: u128 = if self.exp >= 0 {
            let p = pow2_exec(self.exp as u32);
            proof {
                assert((self.exp as u32) as nat == self.exp as nat);
                assert(m * ten <= TWO_53 * 1000) by (nonlinear_arith)
                    requires
                        m <= TWO_53,
                        ten <= 1000,
                {
                }
                lemma_pow2_ge(self.exp as nat, 60);
                lemma2_to64_rest();
                assert(p <= 0x1000000000000000);
                assert(m * ten * p <= TWO_53 * 1000 * 0x1000000000000000) by (nonlinear_arith)
                    requires
                        m <= TWO_53,
                        ten <= 1000,
                        p <= 0x1000000000000000,
                {
                }
                let e = self.exp as nat;
                lemma_pow2_adds(e, 1200);
                assert(m * ten * pow2((1200 + self.exp) as nat) == (m * ten * p) * pow2(1200)) by (nonlinear_arith)
                    requires
                        pow2((1200 + self.exp) as nat) == p * pow2(1200),
                {
                }
                lemma_rhe_scale((m * ten * p) as nat, 1, pow2(1200));
                lemma_rhe_one((m * ten * p) as nat);
            }
            m * ten * p
        } else if self.exp >= -120 {
            let p = pow2_exec((0 - self.exp) as u32);
            proof {
                lemma_pow2_pos((0 - self.exp) as nat);
                lemma_pow2_adds((1200 + self.exp) as nat, (0 - self.exp) as nat);
                lemma_pow2_pos((1200 + self.exp) as nat);
                assert(m * ten <= TWO_53 * 1000) by (nonlinear_arith)
                    requires
                        m <= TWO_53,
                        ten <= 1000,
                {
                }
                lemma_rhe_scale((m * ten) as nat, p as nat, pow2((1200 + self.exp) as nat));
                assert(m * ten * pow2((1200 + self.exp) as nat) == (m * ten) * pow2((1200 + self.exp) as nat));
                assert(pow2(1200) == p * pow2((1200 + self.exp) as nat)) by (nonlinear_arith)
                    requires
                        pow2(1200) == pow2((1200 + self.exp) as nat) * pow2((0 - self.exp) as nat),
                        p == pow2((0 - self.exp) as nat),
                {
                }
            }
            round_half_even(m * ten, p)
        } else {
            proof {
                let c = pow2((1200 + self.exp) as nat);
                let d = pow2((0 - self.exp) as nat);
                lemma_pow2_pos((1200 + self.exp) as nat);
                lemma_pow2_adds((1200 + self.exp) as nat, (0 - self.exp) as nat);
                lemma_pow2_ge(121, (0 - self.exp) as nat);
                lemma_pow2_adds(53, 68);
                lemma_pow2_ge(11, 68);
                lemma2_to64();
                assert(m * ten < d) by (nonlinear_arith)
                    requires
                        m <= TWO_53,
                        ten <= 1000,
                        d >= pow2(121),
                        pow2(121) == pow2(53) * pow2(68),
                        pow2(68) >= pow2(11),
                        pow2(11) == 2048,
                        pow2(53) == TWO_53,
                {
                }
                assert(2 * (m * ten) < d) by (nonlinear_arith)
                    requires
                        m <= TWO_53,
                        ten <= 1000,
                        d >= pow2(121),
                        pow2(121) == pow2(53) * pow2(68),
                        pow2(68) >= pow2(11),
                        pow2(11) == 2048,
                        pow2(53) == TWO_53,
                {
                }
                lemma_rhe_scale((m * ten) as nat, d, c);
                assert(pow2(1200) == d * c) by (nonlinear_arith)
                    requires
                        pow2(1200) == c * d,
                {
                }
                assert((m * ten) as nat / d == 0 && (m * ten) as nat % d == m * ten) by (nonlinear_arith)
                    requires
                        m * ten < d,
                        m * ten >= 0,
                {
                }
            }
            0
        };
        let mut out = String::new();
        if k == 0 {
            push_decimal_wide(&mut out, t);
        } else {
            push_decimal_wide(&mut out, t / ten);
            out.push('.');
            push_zero_padded(&mut out, t % ten, k as usize);
        }
        proof {
            if k == 0 {
                assert(out@ =~= fixed_text(t as nat, k as nat));
            } else {
                assert(out@ =~= fixed_text(t as nat, k as nat));
            }
        }
        out
    }

    /// `format!("{:.k}", self)` for a value `>= 2^61`: an integer, written
    /// digit by digit, then `k` zeros after the point.
    fn fixed_large(&self, k: u32) -> (r: String)
        requires
            in_range(*self),
            self.exp > 60,
            k <= 3,
        ensures
            r@ == spec_fixed(*self, k as nat),
    {
        let mut out = String::new();
        if self.mant == 0 {
            out.push('0');
        } else {
            push_scaled_integer(&mut out, self.mant, self.exp as u32);
        }
        let ghost int_part = out@;
        let mut i: u32 = 0;
        if k > 0 {
            out.push('.');
            while i < k
                invariant
                    i <= k,
                    k <= 3,
                    out@ == int_part + seq!['.'] + Seq::new(i as nat, |j: int| '0'),
                decreases k - i,
            {
                out.push('0');
                proof {
                    assert(out@ =~= int_part + seq!['.'] + Seq::new((i + 1) as nat, |j: int| '0'));
                }
                i = i + 1;
            }
        }
        proof {
            let e = self.exp as nat;
            let v = self.mant as nat * pow2(e);
            let ten = pow10(k as nat);
            let x = v * ten;
            lemma_pow2_adds(e, 1200);
            lemma_pow2_pos(1200);
            lemma_pow10_pos(k as nat);
            assert(self.mant as nat * ten * pow2((1200 + self.exp) as nat) == x * pow2(1200)) by (nonlinear_arith)
                requires
                    pow2((1200 + self.exp) as nat) == pow2(e) * pow2(1200),
                    v == self.mant as nat * pow2(e),
                    x == v * ten,
            {
            }
            lemma_rhe_scale(x, 1, pow2(1200));
            lemma_rhe_one(x);
            assert(fixed_scaled(*self, k as nat) == x);
            if self.mant == 0 {
                assert(v == 0) by (nonlinear_arith)
                    requires
                        v == self.mant as nat * pow2(e),
                        self.mant == 0,
                {
                }
            }
            assert(int_part == decimal(v)) by {
                if self.mant == 0 {
                    assert(decimal(0) =~= seq!['0']);
                }
            }
            assert(x / ten == v && x % ten == 0) by (nonlinear_arith)
                requires
                    x == v * ten,
                    ten > 0,
            {
            }
            if k == 0 {
                assert(ten == 1);
                assert(out@ =~= fixed_text(x, k as nat));
            } else {
                assert(decimal(0) =~= seq!['0']);
                assert(zero_padded(0, k as nat) =~= Seq::new(k as nat, |j: int| '0'));
                assert(out@ =~= fixed_text(x, k as nat));
            }
        }
        out
    }
}

impl Float64 {
    /// The value of a binary64 bit pattern (`f64::from_bits`).
    pub fn from_bits(bits: u64) -> (r: Float64)
        ensures
            r == decoded(bits),
            r matches Float64::Finite { magnitude, .. } ==> in_range(magnitude) && -1184 <= magnitude.exp <= 971,
    {
        let e: u64 = (bits / FRACTION_UNIT) % 2048;
        let f: u64 = bits % FRACTION_UNIT;
        let negative = bits >= 0x8000_0000_0000_0000;
        if e == 2047 {
            if f == 0 {
                Float64::Infinite { negative }
            } else {
                Float64::NaN
            }
        } else if e == 0 && f == 0 {
            Float64::Finite { negative, magnitude: Double { mant: 0, exp: 0 } }
        } else if e == 0 {
            proof {
                lemma_consts();
            }
            Float64::Finite { negative, magnitude: round_ratio(f as u128, 1, -1074) }
        } else {
            Float64::Finite { negative, magnitude: Double { mant: f + FRACTION_UNIT, exp: (e as i32) - 1075 } }
        }
    }

    /// `self == 0.0`.
    pub fn is_zero(&self) -> (r: bool)
        ensures
            r == float_zero(*self),
    {
        match self {
            Float64::Finite { magnitude, .. } => magnitude.mant == 0,
            _ => false,
        }
    }

    /// `self > 0.0`.
    pub fn is_positive(&self) -> (r: bool)
        ensures
            r == float_positive(*self),
    {
        match self {
            Float64::Finite { negative, magnitude } => !*negative && magnitude.mant > 0,
            Float64::Infinite { negative } => !*negative,
            Float64::NaN => false,
        }
    }

    /// `format!("{:.k}", self)`.
    pub fn fixed(&self, k: u32) -> (r: String)
        requires
            printable(*self),
            k <= 3,
        ensures
            r@ == float_fixed(*self, k as nat),
    {
        match self {
            Float64::Finite { negative, magnitude } => {
                let digits = magnitude.fixed(k);
                if *negative {
                    let mut s = String::new();
                    s.push('-');
                    s.append(digits.as_str());
                    proof {
                        assert(s@ =~= seq!['-'] + spec_fixed(*magnitude, k as nat));
                    }
                    s
                } else {
                    digits
                }
            },
            Float64::Infinite { negative } => {
                let mut s = String::new();
                if *negative {
                    s.push('-');
                }
                s.push('i');
                s.push('n');
                s.push('f');
                proof {
                    assert(s@ =~= float_fixed(*self, k as nat));
                }
                s
            },
            Float64::NaN => {
                let mut s = String::new();
                s.push('N');
                s.push('a');
                s.push('N');
                proof {
                    assert(s@ =~= float_fixed(*self, k as nat));
                }
                s
            },
        }
    }
}

} // verus!
