//! The charge level of a battery, in percent.
//!
//! A driver reports the level as a binary32 number. Verified code cannot
//! compute with such a number directly, so a [`Charge`] carries its 32-bit
//! pattern and this module reads the pattern exactly: every finite binary32
//! number is a whole multiple of 2^-149, and all the rules of the gauge
//! (thresholds, rounding) are stated over that count of units.

use vstd::prelude::*;
use vstd::arithmetic::div_mod::*;
use vstd::arithmetic::mul::*;
use vstd::arithmetic::power2::*;

verus! {

/// A charge level in percent, held as the bit pattern of a binary32 number:
/// one sign bit, eight exponent bits, twenty-three fraction bits.
#[derive(Clone, Copy, Debug, PartialEq, Eq, Structural)]
pub struct Charge {
    pub bits: u32,
}

/// How the part of a number after the decimal point compares with one half.
#[derive(Clone, Copy, Debug, PartialEq, Eq, Structural)]
pub enum Fraction {
    Exact,
    BelowHalf,
    Half,
    AboveHalf,
}

/// A non-negative number cut at the decimal point.
#[derive(Clone, Copy, Debug, PartialEq, Eq, Structural)]
pub struct Parts {
    pub whole: u128,
    pub fraction: Fraction,
}

/// The number of cells in the gauge.
pub const GAUGE_CELLS: usize = 10;

/// The number of units of 2^-149 in one percent.
pub open spec fn unit() -> nat {
    pow2(149)
}

/// The nearest whole number to `units / unit()`, a tie going to the even
/// neighbour.
pub open spec fn nearest_even(units: nat) -> nat {
    let whole = units / unit();
    let rest = units % unit();
    if 2 * rest > unit() || (2 * rest == unit() && whole % 2 == 1) {
        whole + 1
    } else {
        whole
    }
}

/// The nearest whole number to `units / (10 * unit())`, a tie going up.
pub open spec fn nearest_tenth(units: nat) -> nat {
    (units + 5 * unit()) / (10 * unit())
}

impl Charge {
    /// The eight exponent bits.
    pub open spec fn exponent_field(self) -> nat {
        (self.bits as nat / 0x80_0000) % 0x100
    }

    /// The twenty-three fraction bits.
    pub open spec fn fraction_field(self) -> nat {
        self.bits as nat % 0x80_0000
    }

    /// The sign bit is set. This holds of negative zero too.
    pub open spec fn negative(self) -> bool {
        self.bits >= 0x8000_0000
    }

    /// The pattern is not a number.
    pub open spec fn nan(self) -> bool {
        self.exponent_field() == 255 && self.fraction_field() != 0
    }

    /// The pattern is one of the two infinities.
    pub open spec fn infinite(self) -> bool {
        self.exponent_field() == 255 && self.fraction_field() == 0
    }

    /// The pattern is a number with a finite value.
    pub open spec fn finite(self) -> bool {
        self.exponent_field() < 255
    }

    /// The significand: the fraction bits, with the hidden leading bit unless
    /// the number is subnormal.
    pub open spec fn significand(self) -> nat {
        if self.exponent_field() == 0 {
            self.fraction_field()
        } else {
            0x80_0000 + self.fraction_field()
        }
    }

    /// The power of two by which the significand is multiplied to count units.
    pub open spec fn scale(self) -> nat {
        if self.exponent_field() == 0 {
            0
        } else {
            (self.exponent_field() - 1) as nat
        }
    }

    /// The absolute value in units of 2^-149 percent. For a finite pattern
    /// this is exact; an infinity or a NaN gets a count above every finite one.
    /// The largest finite count is below 2^277.
    pub open spec fn magnitude(self) -> nat {
        self.significand() * pow2(self.scale())
    }

    /// The absolute value rounded down to a whole number of percent.
    pub open spec fn whole(self) -> nat {
        self.magnitude() / unit()
    }

    /// What the absolute value has above `whole()`, in units.
    pub open spec fn rest(self) -> nat {
        self.magnitude() % unit()
    }

    /// How `rest()` compares with half a percent.
    pub open spec fn fraction(self) -> Fraction {
        if self.rest() == 0 {
            Fraction::Exact
        } else if 2 * self.rest() < unit() {
            Fraction::BelowHalf
        } else if 2 * self.rest() == unit() {
            Fraction::Half
        } else {
            Fraction::AboveHalf
        }
    }

    /// The value is greater than `n` percent. False of a NaN.
    pub open spec fn above(self, n: nat) -> bool {
        !self.nan() && !self.negative() && (self.infinite() || self.magnitude() > n * unit())
    }

    /// The value is `n` percent or less. False of a NaN.
    pub open spec fn at_most(self, n: nat) -> bool {
        !self.nan() && (self.negative() || (self.finite() && self.magnitude() <= n * unit()))
    }

    /// The value lies in the range that a driver reports: 0 to 100 percent.
    pub open spec fn in_range(self) -> bool {
        !self.nan() && (!self.negative() || self.magnitude() == 0) && self.at_most(100)
    }

    /// The absolute value rounded to the nearest whole percent, a tie going to
    /// the even neighbour.
    pub open spec fn rounded(self) -> nat {
        nearest_even(self.magnitude())
    }

    /// The number of gauge cells that the value fills: a tenth of it, rounded
    /// to the nearest whole number with a tie going up. A NaN and a value
    /// below zero fill none.
    pub open spec fn cells(self) -> nat {
        if self.nan() || self.negative() {
            0
        } else {
            nearest_tenth(self.magnitude())
        }
    }

    /// Takes the bit pattern of a binary32 number as the charge.
    pub fn from_bits(bits: u32) -> (c: Charge)
        ensures
            c.bits == bits,
    {
        Charge { bits }
    }

    /// The bit pattern that the charge was made from.
    pub fn to_bits(self) -> (bits: u32)
        ensures
            bits == self.bits,
    {
        self.bits
    }

    /// Whether the sign bit is set.
    pub fn is_negative(self) -> (b: bool)
        ensures
            b == self.negative(),
    {
        self.bits >= 0x8000_0000
    }

    /// Whether the pattern is not a number.
    pub fn is_nan(self) -> (b: bool)
        ensures
            b == self.nan(),
    {
        self.exponent_bits() == 255 && self.bits % 0x80_0000 != 0
    }

    /// Whether the pattern is a number with a finite value.
    pub fn is_finite(self) -> (b: bool)
        ensures
            b == self.finite(),
    {
        self.exponent_bits() < 255
    }

    fn exponent_bits(self) -> (e: u32)
        ensures
            e == self.exponent_field(),
            e <= 255,
    {
        (self.bits / 0x80_0000) % 0x100
    }

    fn significand_bits(self) -> (m: u32)
        ensures
            m == self.significand(),
            m < 0x100_0000,
    {
        if self.exponent_bits() == 0 {
            self.bits % 0x80_0000
        } else {
            0x80_0000 + self.bits % 0x80_0000
        }
    }

    /// Cuts the absolute value of a finite charge at the decimal point.
    pub fn parts(self) -> (p: Parts)
        requires
            self.finite(),
        ensures
            p.whole == self.whole(),
            p.fraction == self.fraction(),
    {
        let e = self.exponent_bits();
        let m = self.significand_bits();
        let scale: u32 = if e == 0 { 0 } else { e - 1 };
        if scale >= 149 {
            let k: u32 = scale - 149;
            let p = power_of_two(k);
            proof {
                lemma_cut_above(m as nat, scale as nat);
                lemma_whole_fits(m as nat, k as nat);
            }
            Parts { whole: (m as u128) * p, fraction: Fraction::Exact }
        } else {
            let s: u32 = 149 - scale;
            proof {
                lemma_cut_below(m as nat, scale as nat);
            }
            if s >= 25 {
                proof {
                    lemma_below_half(m as nat, scale as nat);
                    lemma_pow2_pos(scale as nat);
                    lemma_scaled_order(m as nat, 1, pow2(scale as nat));
                }
                Parts {
                    whole: 0,
                    fraction: if m == 0 { Fraction::Exact } else { Fraction::BelowHalf },
                }
            } else {
                let d = power_of_two(s);
                proof {
                    lemma_pow2_pos(s as nat);
                    lemma_pow2_pos(scale as nat);
                }
                let q = (m as u128) / d;
                let r = (m as u128) % d;
                let half = d / 2;
                proof {
                    lemma_pow2_unfold(s as nat);
                    lemma_scaled_order(2 * r as nat, d as nat, pow2(scale as nat));
                    lemma_scaled_order(r as nat, d as nat, pow2(scale as nat));
                    assert(2 * r * pow2(scale as nat) == 2 * (r * pow2(scale as nat)))
                        by (nonlinear_arith);
                    lemma_pow2_adds(s as nat, scale as nat);
                }
                let fraction = if r == 0 {
                    Fraction::Exact
                } else if r < half {
                    Fraction::BelowHalf
                } else if r == half {
                    Fraction::Half
                } else {
                    Fraction::AboveHalf
                };
                Parts { whole: q, fraction }
            }
        }
    }
}

/// Two to the power `k`, for a power that fits the type.
fn power_of_two(k: u32) -> (p: u128)
    requires
        k <= 127,
    ensures
        p == pow2(k as nat),
{
    let mut p: u128 = 1;
    let mut i: u32 = 0;
    proof {
        lemma2_to64();
    }
    while i < k
        invariant
            i <= k <= 127,
            p == pow2(i as nat),
        decreases k - i,
    {
        proof {
            lemma_pow2_unfold((i + 1) as nat);
            lemma_pow2_strictly_increases((i + 1) as nat, 128);
            lemma_two_to_128();
        }
        p = p * 2;
        i = i + 1;
    }
    p
}

impl Charge {
    /// Whether the value is greater than `n` percent.
    pub fn exceeds(self, n: u32) -> (b: bool)
        ensures
            b == self.above(n as nat),
    {
        if self.is_nan() || self.is_negative() {
            false
        } else if !self.is_finite() {
            true
        } else {
            let p = self.parts();
            proof {
                lemma_order_by_parts(self.magnitude(), n as nat);
            }
            p.whole > n as u128 || (p.whole == n as u128 && p.fraction != Fraction::Exact)
        }
    }

    /// The absolute value of a finite charge, rounded to the nearest whole
    /// percent with a tie going to the even neighbour.
    pub fn round(self) -> (n: u128)
        requires
            self.finite(),
        ensures
            n == self.rounded(),
    {
        let p = self.parts();
        proof {
            lemma_pow2_pos(149);
            if p.whole >= 0x100_0000 {
                lemma_large_is_whole(self);
            }
        }
        let up = match p.fraction {
            Fraction::Exact => false,
            Fraction::BelowHalf => false,
            Fraction::Half => p.whole % 2 == 1,
            Fraction::AboveHalf => true,
        };
        if up {
            p.whole + 1
        } else {
            p.whole
        }
    }

    /// The number of gauge cells that the value fills, where the gauge can
    /// show it: `None` when the value would fill more than the gauge has.
    pub fn gauge_cells(self) -> (n: Option<usize>)
        ensures
            n.is_some() <==> self.cells() <= GAUGE_CELLS,
            n matches Some(k) ==> k == self.cells(),
    {
        if self.is_nan() || self.is_negative() {
            Some(0)
        } else if !self.is_finite() {
            proof {
                lemma_infinite_overfills(self);
            }
            None
        } else {
            let p = self.parts();
            proof {
                lemma_tenth_by_whole(self.magnitude());
            }
            if p.whole >= 105 {
                None
            } else {
                Some(((p.whole + 5) / 10) as usize)
            }
        }
    }
}

/// The order of a count of units and a whole number of percent, read off the
/// two parts of the count.
pub proof fn lemma_order_by_parts(units: nat, n: nat)
    ensures
        units > n * unit() <==> units / unit() > n || (units / unit() == n && units % unit() > 0),
{
    let u = unit() as int;
    lemma_pow2_pos(149);
    lemma_fundamental_div_mod(units as int, u);
    lemma_mod_bound(units as int, u);
    let w = units as int / u;
    assert(w > n ==> u * w >= u * (n + 1)) by (nonlinear_arith)
        requires
            u > 0,
    ;
    assert(w < n ==> u * (w + 1) <= u * n) by (nonlinear_arith)
        requires
            u > 0,
    ;
    assert(u * (n + 1) == n * u + u) by (nonlinear_arith);
    assert(u * (w + 1) == u * w + u) by (nonlinear_arith);
    assert(u * n == n * u) by (nonlinear_arith);
}

/// Rounding a tenth of a count to the nearest whole number, a tie going up,
/// needs only the whole percents of the count.
pub proof fn lemma_tenth_by_whole(units: nat)
    ensures
        nearest_tenth(units) == (units / unit() + 5) / 10,
{
    let u = unit() as int;
    let x = units as int + 5 * u;
    lemma_pow2_pos(149);
    lemma_fundamental_div_mod(units as int, u);
    lemma_mod_bound(units as int, u);
    let w = units as int / u;
    assert(x == (w + 5) * u + units as int % u) by (nonlinear_arith)
        requires
            units as int == u * w + units as int % u,
            x == units as int + 5 * u,
    ;
    lemma_fundamental_div_mod_converse(x, u, w + 5, units as int % u);
    lemma_div_denominator(x, u, 10);
    lemma_mul_is_commutative(u, 10);
}

/// The rounded tenth is the nearest whole number to a tenth of the count: the
/// count lies from half a step below it to just under half a step above.
pub proof fn lemma_tenth_is_nearest(units: nat)
    ensures
        10 * nearest_tenth(units) * unit() <= units + 5 * unit(),
        units + 5 * unit() < 10 * (nearest_tenth(units) + 1) * unit(),
{
    let d = 10 * unit() as int;
    let x = units as int + 5 * unit();
    lemma_pow2_pos(149);
    lemma_fundamental_div_mod(x, d);
    lemma_mod_bound(x, d);
    let q = x / d;
    assert(d * q == 10 * q * unit()) by (nonlinear_arith)
        requires
            d == 10 * unit(),
    ;
    assert(10 * (q + 1) * unit() == d * q + d) by (nonlinear_arith)
        requires
            d == 10 * unit(),
    ;
}

/// The rounded count is the nearest whole number of percent: it is at most
/// half a percent away, and exactly half a percent away only if it is even.
pub proof fn lemma_even_is_nearest(units: nat)
    ensures
        2 * units <= 2 * nearest_even(units) * unit() + unit(),
        2 * nearest_even(units) * unit() <= 2 * units + unit(),
        2 * units == 2 * nearest_even(units) * unit() + unit() || 2 * nearest_even(units) * unit()
            == 2 * units + unit() ==> nearest_even(units) % 2 == 0,
{
    let u = unit() as int;
    lemma_pow2_pos(149);
    lemma_fundamental_div_mod(units as int, u);
    lemma_mod_bound(units as int, u);
    let w = units as int / u;
    let r = units as int % u;
    assert(2 * (w + 1) * u == 2 * (u * w) + 2 * u) by (nonlinear_arith);
    assert(2 * w * u == 2 * (u * w)) by (nonlinear_arith);
}

/// A charge in the range of a driver fills from none to all of the cells, so
/// that filled and empty cells together are the whole gauge; no charge fills
/// no cell and a full charge fills all.
pub proof fn lemma_cells_in_range(charge: Charge)
    requires
        charge.in_range(),
    ensures
        charge.cells() <= GAUGE_CELLS,
        charge.cells() + (GAUGE_CELLS - charge.cells()) as nat == GAUGE_CELLS,
        charge.cells() == nearest_tenth(charge.magnitude()),
        charge.magnitude() == 0 ==> charge.cells() == 0,
        charge.magnitude() == 100 * unit() ==> charge.cells() == GAUGE_CELLS,
{
    lemma_pow2_pos(149);
    lemma_tenth_by_whole(charge.magnitude());
    lemma_order_by_parts(charge.magnitude(), 100);
    lemma_order_by_parts(charge.magnitude(), 99);
    if charge.magnitude() == 0 {
        lemma_order_by_parts(0, 0);
    }
    if charge.negative() {
        assert(nearest_tenth(0) == 0) by {
            lemma_tenth_by_whole(0);
            lemma_order_by_parts(0, 0);
        }
    }
}

/// The count that stands for an infinity or a NaN is 2^23 percent or more.
pub proof fn lemma_infinite_is_large(c: Charge)
    requires
        !c.finite(),
    ensures
        c.whole() >= 0x80_0000,
        c.magnitude() >= 0x80_0000 * unit(),
{
    lemma_cut_above(c.significand(), c.scale());
    lemma_pow2_pos(105);
    assert(c.significand() * pow2(105) >= 0x80_0000) by (nonlinear_arith)
        requires
            c.significand() >= 0x80_0000,
            pow2(105) > 0,
    ;
    let u = unit() as int;
    let w = c.magnitude() as int / u;
    lemma_pow2_pos(149);
    lemma_fundamental_div_mod(c.magnitude() as int, u);
    lemma_mod_bound(c.magnitude() as int, u);
    assert(u * w >= 0x80_0000 * u) by (nonlinear_arith)
        requires
            w >= 0x80_0000,
            u > 0,
    ;
}

/// An infinity would fill more cells than the gauge has.
proof fn lemma_infinite_overfills(c: Charge)
    requires
        c.infinite(),
        !c.negative(),
    ensures
        c.cells() > GAUGE_CELLS,
{
    lemma_infinite_is_large(c);
    lemma_tenth_by_whole(c.magnitude());
}

/// A finite charge of 2^24 percent or more has nothing after the decimal
/// point.
proof fn lemma_large_is_whole(c: Charge)
    requires
        c.finite(),
        c.whole() >= 0x100_0000,
    ensures
        c.rest() == 0,
{
    if c.scale() < 149 {
        lemma_cut_below(c.significand(), c.scale());
        let d = pow2((149 - c.scale()) as nat);
        lemma_pow2_pos((149 - c.scale()) as nat);
        lemma_div_is_ordered_by_denominator(c.significand() as int, 1, d as int);
        lemma_div_basics_2(c.significand() as int);
    } else {
        lemma_cut_above(c.significand(), c.scale());
    }
}

/// A count of `sig * 2^scale` units with `scale < 149` is `sig / 2^(149 - scale)`
/// percent, and what is left is the remainder of that division.
proof fn lemma_cut_below(sig: nat, scale: nat)
    requires
        scale < 149,
    ensures
        (sig * pow2(scale)) / unit() == sig / pow2((149 - scale) as nat),
        (sig * pow2(scale)) % unit() == (sig % pow2((149 - scale) as nat)) * pow2(scale),
{
    let p = pow2(scale) as int;
    let d = pow2((149 - scale) as nat) as int;
    lemma_pow2_pos(scale);
    lemma_pow2_pos((149 - scale) as nat);
    lemma_pow2_adds((149 - scale) as nat, scale);
    lemma_div_multiples_vanish_quotient(p, sig as int, d);
    lemma_truncate_middle(sig as int, p, d);
    lemma_mul_is_commutative(p, sig as int);
    lemma_mul_is_commutative(p, d);
    lemma_mul_is_commutative(p, sig as int % d);
}

/// A count of `sig * 2^scale` units with `scale >= 149` is a whole number of
/// percent.
proof fn lemma_cut_above(sig: nat, scale: nat)
    requires
        scale >= 149,
    ensures
        (sig * pow2(scale)) / unit() == sig * pow2((scale - 149) as nat),
        (sig * pow2(scale)) % unit() == 0,
{
    let k = pow2((scale - 149) as nat) as int;
    let u = unit() as int;
    lemma_pow2_pos(149);
    lemma_pow2_adds((scale - 149) as nat, 149);
    assert(sig * pow2(scale) == (sig * k) * u) by {
        lemma_mul_is_associative(sig as int, k, u);
    }
    lemma_div_multiples_vanish(sig as int * k, u);
    lemma_mod_multiples_basic(sig as int * k, u);
}

/// A significand times two to a power of at most 104 fits 128 bits.
proof fn lemma_whole_fits(sig: nat, k: nat)
    requires
        sig < 0x100_0000,
        k <= 104,
    ensures
        sig * pow2(k) < 0x1_0000_0000_0000_0000_0000_0000_0000_0000,
{
    lemma2_to64();
    lemma_two_to_128();
    lemma_pow2_adds(24, 104);
    if k < 104 {
        lemma_pow2_strictly_increases(k, 104);
    }
    lemma_pow2_pos(k);
    assert(sig * pow2(k) < 0x100_0000 * pow2(104)) by (nonlinear_arith)
        requires
            sig < 0x100_0000,
            0 < pow2(k) <= pow2(104),
    ;
}

/// A significand divided by two to a power of 25 or more is below one half.
proof fn lemma_below_half(sig: nat, scale: nat)
    requires
        sig < 0x100_0000,
        scale <= 124,
    ensures
        sig / pow2((149 - scale) as nat) == 0,
        sig % pow2((149 - scale) as nat) == sig,
        2 * (sig * pow2(scale)) < unit(),
{
    let s = (149 - scale) as nat;
    lemma2_to64();
    if 25 < s {
        lemma_pow2_strictly_increases(25, s);
    }
    lemma_small_mod(sig, pow2(s));
    lemma_basic_div(sig as int, pow2(s) as int);
    lemma_pow2_adds(s, scale);
    lemma_pow2_pos(scale);
    lemma_scaled_order(2 * sig, pow2(s), pow2(scale));
    assert(2 * sig * pow2(scale) == 2 * (sig * pow2(scale))) by (nonlinear_arith);
}

/// Multiplying both sides by a positive number keeps their order.
proof fn lemma_scaled_order(a: nat, b: nat, p: nat)
    requires
        p > 0,
    ensures
        a < b <==> a * p < b * p,
        a == b <==> a * p == b * p,
        a == 0 <==> a * p == 0,
{
    assert(a < b ==> a * p < b * p) by (nonlinear_arith)
        requires
            p > 0,
    ;
    assert(a > b ==> a * p > b * p) by (nonlinear_arith)
        requires
            p > 0,
    ;
    assert(a > 0 ==> a * p > 0) by (nonlinear_arith)
        requires
            p > 0,
    ;
    assert(a == 0 ==> a * p == 0) by (nonlinear_arith);
}

proof fn lemma_two_to_128()
    ensures
        pow2(128) == 0x1_0000_0000_0000_0000_0000_0000_0000_0000,
{
    lemma2_to64();
    lemma_pow2_adds(64, 64);
}

} // verus!
