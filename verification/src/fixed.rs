//! 16.16 fixed-point numbers with saturating arithmetic.

use vstd::prelude::*;

verus! {

/// The raw value of one whole unit (one pixel).
pub const FIXED_ONE: i32 = 65536;

/// A signed 16.16 fixed-point number: `raw / 65536` units.
///
/// Arithmetic saturates at the ends of the representable range, which is
/// `-32768.0 ..= 32767.99998`.
#[derive(Debug, Clone, Copy, PartialEq, Eq, Structural)]
pub struct Fixed {
    pub raw: i32,
}

/// The `i32` nearest to `v`.
pub open spec fn clamp_i32(v: int) -> i32 {
    if v < i32::MIN {
        i32::MIN
    } else if v > i32::MAX {
        i32::MAX
    } else {
        v as i32
    }
}

/// The integer nearest to `n / d`, ties rounded away from zero. Meant for `d > 0`.
pub open spec fn div_round(n: int, d: int) -> int {
    if n >= 0 {
        (n + d / 2) / d
    } else {
        -((-n + d / 2) / d)
    }
}

/// The integer nearest to `n / d` where no denominator is excluded: a zero
/// denominator gives the signed limit of the range, as a quotient growing
/// without bound would.
pub open spec fn ratio_raw(n: int, d: int) -> i32 {
    if d > 0 {
        clamp_i32(div_round(n, d))
    } else if n > 0 {
        i32::MAX
    } else if n < 0 {
        i32::MIN
    } else {
        0
    }
}

/// For a non-negative numerator the rounded quotient lies between zero and the numerator.
proof fn lemma_div_round_nonneg(a: int, d: int)
    requires
        a >= 0,
        d > 0,
    ensures
        0 <= (a + d / 2) / d <= a,
{
    let h = d / 2;
    vstd::arithmetic::div_mod::lemma_div_pos_is_pos(a + h, d);
    if a == 0 {
        vstd::arithmetic::div_mod::lemma_basic_div(h, d);
    } else {
        assert(a + h <= a * d) by (nonlinear_arith)
            requires
                a >= 1,
                d >= 1,
                h == d / 2,
        ;
        vstd::arithmetic::div_mod::lemma_div_is_ordered(a + h, a * d, d);
        vstd::arithmetic::div_mod::lemma_div_multiples_vanish(a, d);
    }
}

/// Rounded division is monotone in the numerator, keeps the sign, is odd, and
/// is exact on multiples of the denominator.
pub proof fn lemma_div_round(n: int, m: int, d: int)
    requires
        d > 0,
        n <= m,
    ensures
        div_round(n, d) <= div_round(m, d),
        n >= 0 ==> 0 <= div_round(n, d) <= n,
        n <= 0 ==> n <= div_round(n, d) <= 0,
        div_round(n * d, d) == n,
        div_round(-n, d) == -div_round(n, d),
{
    let h = d / 2;
    if n >= 0 {
        lemma_div_round_nonneg(n, d);
        lemma_div_round_nonneg(m, d);
        vstd::arithmetic::div_mod::lemma_div_is_ordered(n + h, m + h, d);
        vstd::arithmetic::div_mod::lemma_div_multiples_vanish_fancy(n, h, d);
        assert(n * d >= 0 && n * d == d * n) by (nonlinear_arith)
            requires
                n >= 0,
                d > 0,
        ;
    } else {
        lemma_div_round_nonneg(-n, d);
        if m >= 0 {
            lemma_div_round_nonneg(m, d);
        } else {
            lemma_div_round_nonneg(-m, d);
            vstd::arithmetic::div_mod::lemma_div_is_ordered(-m + h, -n + h, d);
        }
        vstd::arithmetic::div_mod::lemma_div_multiples_vanish_fancy(-n, h, d);
        assert(n * d < 0 && -(n * d) == d * (-n)) by (nonlinear_arith)
            requires
                n < 0,
                d > 0,
        ;
    }
}

/// Rounded division is off by half the denominator at most:
/// `|d * div_round(n, d) - n| <= d / 2`.
pub proof fn lemma_div_round_error(n: int, d: int)
    requires
        d > 0,
    ensures
        -d <= 2 * (d * div_round(n, d) - n) <= d,
{
    let h = d / 2;
    let m = if n >= 0 {
        n
    } else {
        -n
    };
    let q = (m + h) / d;
    let r = (m + h) % d;
    vstd::arithmetic::div_mod::lemma_fundamental_div_mod(m + h, d);
    vstd::arithmetic::div_mod::lemma_mod_bound(m + h, d);
    assert(d * q - m == h - r);
    assert(2 * h <= d && d <= 2 * h + 1);
    if n < 0 {
        assert(d * (-q) == -(d * q)) by (nonlinear_arith);
    }
}

/// The product of two `i32` values, which always fits in an `i64`.
fn wide_product(a: i32, b: i32) -> (r: i64)
    ensures
        r == a as int * b as int,
        -0x4000_0000_0000_0000 <= r <= 0x4000_0000_0000_0000,
{
    assert(-0x4000_0000_0000_0000 <= a as int * b as int <= 0x4000_0000_0000_0000)
        by (nonlinear_arith)
        requires
            -0x8000_0000 <= a as int <= 0x7fff_ffff,
            -0x8000_0000 <= b as int <= 0x7fff_ffff,
    ;
    (a as i64) * (b as i64)
}

/// The nearest `i32` to `v`.
fn saturate(v: i64) -> (r: i32)
    ensures
        r == clamp_i32(v as int),
{
    if v < -0x8000_0000 {
        i32::MIN
    } else if v > 0x7fff_ffff {
        i32::MAX
    } else {
        v as i32
    }
}

/// The nearest `i32` to `n / d`, ties away from zero; the signed limit for a zero `d`.
pub fn rounded_ratio(n: i64, d: u32) -> (r: i32)
    ensures
        r == ratio_raw(n as int, d as int),
{
    if d == 0 {
        if n > 0 {
            i32::MAX
        } else if n < 0 {
            i32::MIN
        } else {
            0
        }
    } else {
        let half: u64 = (d / 2) as u64;
        if n >= 0 {
            let q: u64 = (n as u64 + half) / (d as u64);
            proof {
                lemma_div_round(0, n as int, d as int);
            }
            if q > 0x7fff_ffff {
                i32::MAX
            } else {
                q as i32
            }
        } else {
            // The magnitude of the least `i64` does not fit in an `i64`.
            let m: u64 = (-(n + 1)) as u64 + 1;
            let q: u64 = (m + half) / (d as u64);
            proof {
                lemma_div_round(0, -(n as int), d as int);
            }
            if q > 0x8000_0000 {
                i32::MIN
            } else {
                let neg: i64 = -(q as i64);
                neg as i32
            }
        }
    }
}

impl Fixed {
    /// The number with the given raw value.
    pub fn from_raw(raw: i32) -> (r: Fixed)
        ensures
            r.raw == raw,
    {
        Fixed { raw }
    }

    /// Zero.
    pub fn zero() -> (r: Fixed)
        ensures
            r.raw == 0,
    {
        Fixed { raw: 0 }
    }

    /// The whole number `units`, saturated to the representable range.
    pub fn from_int(units: i32) -> (r: Fixed)
        ensures
            r.raw == clamp_i32(units as int * 65536),
    {
        Fixed { raw: saturate((units as i64) * 65536) }
    }

    /// The representable number nearest to `num / den` (ties away from zero),
    /// saturated; for `den == 0` the limit of the range on the side of `num`.
    pub fn from_ratio(num: i32, den: u32) -> (r: Fixed)
        ensures
            r.raw == ratio_raw(num as int * 65536, den as int),
    {
        Fixed { raw: rounded_ratio((num as i64) * 65536, den) }
    }

    /// `self + other`, saturated.
    pub fn saturating_add(self, other: Fixed) -> (r: Fixed)
        ensures
            r.raw == clamp_i32(self.raw + other.raw),
    {
        Fixed { raw: saturate(self.raw as i64 + other.raw as i64) }
    }

    /// `self - other`, saturated.
    pub fn saturating_sub(self, other: Fixed) -> (r: Fixed)
        ensures
            r.raw == clamp_i32(self.raw - other.raw),
    {
        Fixed { raw: saturate(self.raw as i64 - other.raw as i64) }
    }

    /// `-self`, saturated.
    pub fn saturating_neg(self) -> (r: Fixed)
        ensures
            r.raw == clamp_i32(-self.raw),
    {
        Fixed { raw: saturate(-(self.raw as i64)) }
    }

    /// Half of `self`, rounded to the nearest raw value (ties away from zero).
    pub fn half(self) -> (r: Fixed)
        ensures
            r.raw == div_round(self.raw as int, 2),
    {
        proof {
            if self.raw >= 0 {
                lemma_div_round(0, self.raw as int, 2);
            } else {
                lemma_div_round(self.raw as int, 0, 2);
            }
        }
        Fixed { raw: rounded_ratio(self.raw as i64, 2) }
    }

    /// The nearest whole number, ties away from zero.
    pub fn round(self) -> (r: i32)
        ensures
            r == div_round(self.raw as int, 65536),
    {
        proof {
            if self.raw >= 0 {
                lemma_div_round(0, self.raw as int, 65536);
            } else {
                lemma_div_round(self.raw as int, 0, 65536);
            }
        }
        rounded_ratio(self.raw as i64, 65536)
    }

    /// A length of `units` font design units at `size` pixels per em, for a
    /// font of `units_per_em` design units per em: `units * size / units_per_em`.
    pub open spec fn scaled(units: int, size: Fixed, units_per_em: int) -> Fixed {
        Fixed { raw: ratio_raw(units * size.raw, units_per_em) }
    }

    /// Converts `units` font design units to pixels at `size` pixels per em.
    pub fn scale(units: i32, size: Fixed, units_per_em: u16) -> (r: Fixed)
        ensures
            r == Fixed::scaled(units as int, size, units_per_em as int),
    {
        Fixed { raw: rounded_ratio(wide_product(units, size.raw), units_per_em as u32) }
    }
}

} // verus!
