//! Unit conversions from command-line input to the raw values of the wire.
use vstd::prelude::*;

verus! {

/// `1_000_000 / v`, rounded to the nearest integer with halves rounded up.
///
/// Kelvin to mireds and mireds to kelvin are the same reciprocal.
pub open spec fn reciprocal(v: nat) -> nat
    recommends
        v > 0,
{
    ((1_000_000 + v / 2) / v) as nat
}

fn recip(v: u32) -> (r: u32)
    requires
        v > 0,
    ensures
        r == reciprocal(v as nat),
{
    (1_000_000 + v / 2) / v
}

/// In the range that the command line admits, the reciprocal fits a `u16`.
pub proof fn law_reciprocal_fits_u16(v: nat)
    requires
        16 <= v <= 1_000_000,
    ensures
        1 <= reciprocal(v) <= 62_500,
{
    let n: int = 1_000_000 + v as int / 2;
    let d: int = v as int;
    let q: int = n / d;
    assert(d * q + n % d == n && 0 <= n % d < d) by (nonlinear_arith)
        requires
            d > 0,
            q == n / d,
    ;
    assert(q >= 1) by (nonlinear_arith)
        requires
            n >= d,
            d > 0,
            d * q + n % d == n,
            0 <= n % d < d,
    ;
    assert(q <= 62_500) by (nonlinear_arith)
        requires
            d * q <= 1_000_000 + d / 2,
            d >= 16,
    ;
}

/// Resolves `--kelvin` or `--mireds` into the pair `(mireds, kelvin)`.
///
/// Exactly one of the two is given, and it is not zero. The other is its
/// reciprocal, kept as the echo of the reply. Mireds are sixteen bits wide: a
/// kelvin below 16, which the command line does not admit, wraps.
pub fn resolve_color_temp(kelvin: Option<u32>, mireds: Option<u16>) -> (r: (u16, u32))
    requires
        kelvin is Some <==> mireds is None,
        kelvin matches Some(k) ==> k > 0,
        mireds matches Some(m) ==> m > 0,
    ensures
        kelvin matches Some(k) ==> r.0 == reciprocal(k as nat) % 65_536 && r.1 == k,
        kelvin matches Some(k) ==> (16 <= k <= 1_000_000 ==> r.0 == reciprocal(k as nat)),
        mireds matches Some(m) ==> r.0 == m && r.1 == reciprocal(m as nat),
{
    match kelvin {
        Some(k) => {
            let m: u32 = recip(k);
            proof {
                if 16 <= k <= 1_000_000 {
                    law_reciprocal_fits_u16(k as nat);
                }
                assert(m as u16 == m % 65_536) by (bit_vector);
            }
            (m as u16, k)
        },
        None => match mireds {
            Some(m) => (m, recip(m as u32)),
            None => (0, 0),
        },
    }
}

/// `percent / 100 * 254`, rounded to the nearest integer with halves up.
pub open spec fn level_of(percent: nat) -> nat {
    ((percent * 254 + 50) / 100) as nat
}

/// Resolves `--percent` into the raw level of LevelControl, 0 to 254.
///
/// 255 is a reserved value and is never produced for a percentage. An input
/// above 100, which the command line does not admit, wraps.
pub fn resolve_level(percent: u8) -> (level: u8)
    ensures
        level == level_of(percent as nat) % 256,
        percent <= 100 ==> level == level_of(percent as nat) && level <= 254,
{
    let n: u32 = (percent as u32 * 254 + 50) / 100;
    assert(n as u8 == n % 256) by (bit_vector);
    n as u8
}

/// A higher percentage gives a higher level, so that no two percentages share
/// one, and the ends of the scale are hit exactly.
pub proof fn law_level_is_strictly_increasing(a: nat, b: nat)
    requires
        a < b <= 100,
    ensures
        level_of(a) < level_of(b) <= 254,
        level_of(0) == 0,
        level_of(100) == 254,
{
}

/// A warmer light needs more mireds: the reciprocal never rises with its
/// argument.
pub proof fn law_reciprocal_is_antitone(a: nat, b: nat)
    requires
        0 < a <= b <= 1_000_000,
    ensures
        reciprocal(b) <= reciprocal(a),
{
    let x: int = a as int;
    let y: int = b as int;
    let nx: int = 1_000_000 + x / 2;
    let ny: int = 1_000_000 + y / 2;
    let qx: int = nx / x;
    let qy: int = ny / y;
    assert(x * qx + nx % x == nx && 0 <= nx % x < x) by (nonlinear_arith)
        requires
            x > 0,
            qx == nx / x,
    ;
    assert(y * qy + ny % y == ny && 0 <= ny % y < y) by (nonlinear_arith)
        requires
            y > 0,
            qy == ny / y,
    ;
    if qx < qy {
        assert(x * qy >= x * qx + x) by (nonlinear_arith)
            requires
                qx < qy,
                x > 0,
        ;
        assert((y - x) * qy == y * qy - x * qy) by (nonlinear_arith);
        assert((y - x) * qy >= y - x) by (nonlinear_arith)
            requires
                qy >= 1,
                y >= x,
        ;
    }
}

/// Mireds come back from the kelvin they stand for: the reciprocal of the
/// reciprocal of 1 to 1000 is the number itself.
pub proof fn law_mireds_come_back_from_kelvin(mireds: nat)
    requires
        1 <= mireds <= 1_000,
    ensures
        reciprocal(reciprocal(mireds)) == mireds,
{
    let m: int = mireds as int;
    let n: int = 1_000_000 + m / 2;
    let k: int = n / m;
    assert(m * k + n % m == n && 0 <= n % m < m) by (nonlinear_arith)
        requires
            m > 0,
            k == n / m,
    ;
    assert(k >= m) by (nonlinear_arith)
        requires
            m * k > n - m,
            n >= 1_000_000,
            1 <= m <= 1_000,
    ;
    let top: int = 1_000_000 + k / 2;
    assert(m * k <= top);
    assert(top < m * k + k);
    assert(top / k == m) by (nonlinear_arith)
        requires
            k > 0,
            m * k <= top < m * k + k,
    ;
    assert(reciprocal(mireds) == k);
}

/// The reciprocal is the nearest whole number: no more than half a unit off.
pub proof fn law_reciprocal_is_nearest(v: nat)
    requires
        v > 0,
    ensures
        2 * (v * reciprocal(v)) <= 2_000_000 + v,
        2_000_000 <= 2 * (v * reciprocal(v)) + v,
{
    let d: int = v as int;
    let n: int = 1_000_000 + d / 2;
    let q: int = n / d;
    assert(d * q + n % d == n && 0 <= n % d < d) by (nonlinear_arith)
        requires
            d > 0,
            q == n / d,
    ;
    assert(reciprocal(v) == q) by {
        assert(q >= 0) by (nonlinear_arith)
            requires
                d * q + n % d == n,
                0 <= n % d < d,
                n >= 0,
                d > 0,
        ;
    }
}

/// The level is the nearest whole number to the share of 254 that a percentage
/// stands for: no more than half a unit off.
pub proof fn law_level_is_nearest(percent: nat)
    ensures
        254 * percent <= 100 * level_of(percent) + 50,
        100 * level_of(percent) <= 254 * percent + 50,
{
}

} // verus!
