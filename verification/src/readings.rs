//! Binary64 constants and the renderings of memory, disk and rate readings
//! shared by the monitor and the per-tick output.

use vstd::prelude::*;
use vstd::string::*;
use vstd::arithmetic::power2::{pow2, lemma2_to64};
use crate::double::{Double, in_range, spec_div, spec_fixed, spec_from_u64, spec_mul};
use crate::text::{decimal, push_decimal};

verus! {

/// `1024.0`.
pub open spec fn f1024() -> Double { spec_from_u64(1024) }
/// `1000.0`.
pub open spec fn f1000() -> Double { spec_from_u64(1000) }
/// `100.0`.
pub open spec fn f100() -> Double { spec_from_u64(100) }
/// `1_000_000.0`.
pub open spec fn f1e6() -> Double { spec_from_u64(1_000_000) }
/// `1_000_000_000.0`.
pub open spec fn f1e9() -> Double { spec_from_u64(1_000_000_000) }

/// A binary64 constant `c` (a positive integer below 2^53) with its exponent.
pub fn constant(c: u64) -> (r: Double)
    requires
        0 < c,
    ensures
        r == spec_from_u64(c),
        in_range(r),
        r.mant > 0,
        c == 100 ==> r.exp == -46,
        c == 1000 ==> r.exp == -43,
        c == 1024 ==> r.exp == -42,
        c == 1_000_000 ==> r.exp == -33,
        c == 1_000_000_000 ==> r.exp == -23,
{
    proof {
        lemma2_to64();
    }
    let r = Double::from_u64(c);
    proof {
        assert(pow2(6) <= 100 < pow2(7));
        assert(pow2(9) <= 1000 < pow2(10));
        assert(pow2(10) <= 1024 < pow2(11));
        assert(pow2(19) <= 1_000_000 < pow2(20));
        assert(pow2(29) <= 1_000_000_000 < pow2(30));
    }
    r
}

/// `x / 1024.0 / 1024.0 / 1024.0` for `x as f64`: bytes in GiB.
pub open spec fn gib(x: u64) -> Double {
    spec_div(spec_div(spec_div(spec_from_u64(x), f1024()), f1024()), f1024())
}

/// `(part as f64 / whole as f64) * 100.0`.
pub open spec fn percent_of(part: u64, whole: u64) -> Double {
    spec_mul(spec_div(spec_from_u64(part), spec_from_u64(whole)), f100())
}

/// `"{:.1}/{:.1} GB ({:.0}%)"` of the used and total amounts and the percentage.
pub open spec fn usage_text(used: Double, total: Double, pct: Double) -> Seq<char> {
    spec_fixed(used, 1) + "/"@ + spec_fixed(total, 1) + " GB ("@ + spec_fixed(pct, 0) + "%)"@
}

/// `x as f64 / 1024.0 / 1024.0 / 1024.0`.
pub fn gib_of(x: u64) -> (r: Double)
    ensures
        r == gib(x),
        in_range(r),
        -200 <= r.exp <= 60,
        r.mant == 0 <==> x == 0,
{
    let k = constant(1024);
    let a = Double::from_u64(x);
    let b = a.div(&k);
    let c = b.div(&k);
    let d = c.div(&k);
    d
}

/// `(part as f64 / whole as f64) * 100.0`.
pub fn percent(part: u64, whole: u64) -> (r: Double)
    requires
        whole > 0,
    ensures
        r == percent_of(part, whole),
        in_range(r),
        -200 <= r.exp <= 60,
        r.mant == 0 <==> part == 0,
{
    let h = constant(100);
    let w = Double::from_u64(whole);
    let a = Double::from_u64(part);
    let q = a.div(&w);
    q.mul(&h)
}

/// `"{:.1}/{:.1} GB ({:.0}%)"`.
pub fn usage_string(used: Double, total: Double, pct: Double) -> (s: String)
    requires
        in_range(used),
        in_range(total),
        in_range(pct),
        -1200 <= used.exp,
        -1200 <= total.exp,
        -1200 <= pct.exp,
    ensures
        s@ == usage_text(used, total, pct),
{
    let mut s = used.fixed(1);
    s.append("/");
    let t = total.fixed(1);
    s.append(t.as_str());
    s.append(" GB (");
    let p = pct.fixed(0);
    s.append(p.as_str());
    s.append("%)");
    s
}

/// What `format_speed` renders for `b` bytes per second.
pub open spec fn speed_text(b: u64) -> Seq<char> {
    if b >= 1_000_000 {
        spec_fixed(spec_div(spec_from_u64(b), f1e6()), 1) + " MB/s"@
    } else if b >= 1_000 {
        spec_fixed(spec_div(spec_from_u64(b), f1000()), 1) + " KB/s"@
    } else {
        decimal(b as nat) + " B/s"@
    }
}

/// A rate in bytes per second: `"{:.1} MB/s"` from a million up, `"{:.1} KB/s"`
/// from a thousand up, whole `"B/s"` below.
pub fn format_speed(bytes_per_sec: u64) -> (s: String)
    ensures
        s@ == speed_text(bytes_per_sec),
{
    if bytes_per_sec >= 1_000_000 {
        let d = Double::from_u64(bytes_per_sec).div(&constant(1_000_000));
        let mut s = d.fixed(1);
        s.append(" MB/s");
        s
    } else if bytes_per_sec >= 1_000 {
        let d = Double::from_u64(bytes_per_sec).div(&constant(1_000));
        let mut s = d.fixed(1);
        s.append(" KB/s");
        s
    } else {
        let mut s = String::new();
        push_decimal(&mut s, bytes_per_sec);
        s.append(" B/s");
        proof {
            assert(s@ =~= decimal(bytes_per_sec as nat) + " B/s"@);
        }
        s
    }
}

} // verus!
