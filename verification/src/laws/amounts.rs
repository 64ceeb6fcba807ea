//! Laws of amounts: when arithmetic is exact, and how far rounding can go.

use crate::amount::{Dec, MANTISSA_LIMIT, MAX_SCALE};
use vstd::prelude::*;

verus! {

/// Powers of ten are positive.
pub proof fn lemma_pow10_positive(n: nat)
    ensures
        crate::amount::pow10(n) >= 1,
    decreases n,
{
    if n > 0 {
        lemma_pow10_positive((n - 1) as nat);
    }
}

/// `10^(a + b)` is `10^a * 10^b`.
pub proof fn lemma_pow10_adds(a: nat, b: nat)
    ensures
        crate::amount::pow10(a + b) == crate::amount::pow10(a) * crate::amount::pow10(b),
    decreases a,
{
    if a > 0 {
        lemma_pow10_adds((a - 1) as nat, b);
        let x = crate::amount::pow10((a - 1) as nat);
        let y = crate::amount::pow10(b);
        assert(10 * (x * y) == (10 * x) * y) by (nonlinear_arith);
        assert(((a - 1) as nat) + b == (a + b - 1) as nat);
    } else {
        assert(1 * crate::amount::pow10(b) == crate::amount::pow10(b));
    }
}

/// Rounding a whole multiple changes nothing.
pub proof fn lemma_half_even_exact(k: int, d: int)
    requires
        d > 0,
    ensures
        crate::amount::half_even(k * d, d) == k,
{
    vstd::arithmetic::div_mod::lemma_div_multiples_vanish(k, d);
    vstd::arithmetic::div_mod::lemma_mod_multiples_basic(k, d);
    vstd::arithmetic::mul::lemma_mul_is_commutative(k, d);
}

/// Rounding moves a number by at most half a step, and keeps its sign.
pub proof fn lemma_half_even_close(n: int, d: int)
    requires
        d > 0,
    ensures
        -d <= 2 * (crate::amount::half_even(n, d) * d - n) <= d,
        n >= 0 ==> crate::amount::half_even(n, d) >= 0,
        n <= 0 ==> crate::amount::half_even(n, d) <= 0,
{
    let q = n / d;
    let r = n % d;
    vstd::arithmetic::div_mod::lemma_fundamental_div_mod(n, d);
    vstd::arithmetic::div_mod::lemma_mod_bound(n, d);
    vstd::arithmetic::mul::lemma_mul_is_commutative(q, d);
    assert((q + 1) * d == q * d + d) by (nonlinear_arith);
    let h = crate::amount::half_even(n, d);
    assert(-d <= 2 * (h * d - n) <= d);
    if n >= 0 {
        assert(h >= 0) by (nonlinear_arith)
            requires
                -d <= 2 * (h * d - n),
                n >= 0,
                d > 0,
        ;
    }
    if n <= 0 {
        assert(h <= 0) by (nonlinear_arith)
            requires
                2 * (h * d - n) <= d,
                n <= 0,
                d > 0,
        ;
    }
}

/// A number is a whole multiple of the step of any number of places that it can be written with.
pub proof fn lemma_units_multiple(a: Dec, scale: nat)
    requires
        a.wf(),
        a.scale <= scale <= MAX_SCALE,
    ensures
        a.units() == (a.mantissa * crate::amount::pow10((scale - a.scale) as nat))
            * crate::amount::pow10((MAX_SCALE - scale) as nat),
{
    lemma_pow10_adds((scale - a.scale) as nat, (MAX_SCALE - scale) as nat);
    assert((scale - a.scale) as nat + (MAX_SCALE - scale) as nat == (MAX_SCALE - a.scale) as nat);
    vstd::arithmetic::mul::lemma_mul_is_associative(
        a.mantissa,
        crate::amount::pow10((scale - a.scale) as nat),
        crate::amount::pow10((MAX_SCALE - scale) as nat),
    );
}

/// What `nearest` yields can be held by an amount, has the sign it should have, and is off by at
/// most half a step of the places it is written with.
pub proof fn lemma_nearest_close(units: int, scale: nat)
    requires
        scale <= MAX_SCALE,
    ensures
        crate::amount::nearest(units, scale) matches Some(c) ==> {
            &&& c.wf()
            &&& c.scale <= scale
            &&& 2 * (c.units() - units) <= crate::amount::pow10((MAX_SCALE - c.scale) as nat)
            &&& 2 * (units - c.units()) <= crate::amount::pow10((MAX_SCALE - c.scale) as nat)
            &&& units >= 0 ==> c.units() >= 0
            &&& units <= 0 ==> c.units() <= 0
        },
    decreases scale,
{
    let d = crate::amount::pow10((MAX_SCALE - scale) as nat);
    lemma_pow10_positive((MAX_SCALE - scale) as nat);
    lemma_half_even_close(units, d);
    let m = crate::amount::half_even(units, d);
    if units >= 0 {
        assert(m * d >= 0) by (nonlinear_arith)
            requires
                m >= 0,
                d > 0,
        ;
    }
    if units <= 0 {
        assert(m * d <= 0) by (nonlinear_arith)
            requires
                m <= 0,
                d > 0,
        ;
    }
    if scale > 0 {
        lemma_nearest_close(units, (scale - 1) as nat);
    }
}

impl Dec {
    /// Whether adding `b` gives the true sum, neither rounded nor out of range.
    pub open spec fn adds_exactly(self, b: Dec) -> bool {
        self.plus(b) matches Some(c) && c.units() == self.units() + b.units()
    }

    /// Whether subtracting `b` gives the true difference, neither rounded nor out of range.
    pub open spec fn subtracts_exactly(self, b: Dec) -> bool {
        self.minus(b) matches Some(c) && c.units() == self.units() - b.units()
    }

    /// Whether the value `units * 10^-28` fits in an amount with `scale` decimal places.
    pub open spec fn fits(units: int, scale: nat) -> bool {
        let step = crate::amount::pow10((MAX_SCALE - scale) as nat);
        -MANTISSA_LIMIT * step < units < MANTISSA_LIMIT * step
    }
}

/// A whole multiple of a step that fits is not rounded.
proof fn lemma_nearest_exact(k: int, scale: nat)
    requires
        scale <= MAX_SCALE,
        Dec::fits(k * crate::amount::pow10((MAX_SCALE - scale) as nat), scale),
    ensures
        crate::amount::nearest(k * crate::amount::pow10((MAX_SCALE - scale) as nat), scale) == Some(
            Dec { mantissa: k, scale },
        ),
{
    let d = crate::amount::pow10((MAX_SCALE - scale) as nat);
    lemma_pow10_positive((MAX_SCALE - scale) as nat);
    lemma_half_even_exact(k, d);
    let limit = MANTISSA_LIMIT as int;
    assert(-limit < k < limit) by (nonlinear_arith)
        requires
            -limit * d < k * d < limit * d,
            d > 0,
    ;
}

/// The sum and the difference of two amounts are exact whenever they fit in the larger of the
/// two numbers of decimal places.
pub proof fn law_arithmetic_is_exact_where_it_fits(a: Dec, b: Dec)
    requires
        a.wf(),
        b.wf(),
    ensures
        Dec::fits(a.units() + b.units(), crate::amount::wider(a.scale, b.scale))
            ==> a.adds_exactly(b),
        Dec::fits(a.units() - b.units(), crate::amount::wider(a.scale, b.scale))
            ==> a.subtracts_exactly(b),
{
    let s = crate::amount::wider(a.scale, b.scale);
    let d = crate::amount::pow10((MAX_SCALE - s) as nat);
    lemma_units_multiple(a, s);
    lemma_units_multiple(b, s);
    let x = a.mantissa * crate::amount::pow10((s - a.scale) as nat);
    let y = b.mantissa * crate::amount::pow10((s - b.scale) as nat);
    assert(x * d + y * d == (x + y) * d) by (nonlinear_arith);
    assert(x * d - y * d == (x - y) * d) by (nonlinear_arith);
    lemma_zero_units(a);
    lemma_zero_units(b);
    if Dec::fits(a.units() + b.units(), s) {
        lemma_nearest_exact(x + y, s);
    }
    if Dec::fits(a.units() - b.units(), s) {
        lemma_nearest_exact(x - y, s);
    }
    lemma_negated_units(b);
}

/// A value that can be written with `scale` places or fewer is not rounded.
proof fn lemma_nearest_representable(c: Dec, scale: nat)
    requires
        c.wf(),
        c.scale <= scale <= MAX_SCALE,
    ensures
        crate::amount::nearest(c.units(), scale) matches Some(r) && r.units() == c.units(),
    decreases scale,
{
    let d = crate::amount::pow10((MAX_SCALE - scale) as nat);
    let k = c.mantissa * crate::amount::pow10((scale - c.scale) as nat);
    lemma_pow10_positive((MAX_SCALE - scale) as nat);
    lemma_units_multiple(c, scale);
    lemma_half_even_exact(k, d);
    if scale > c.scale {
        lemma_nearest_representable(c, (scale - 1) as nat);
    } else {
        assert(crate::amount::pow10(0) == 1);
        assert(k == c.mantissa);
    }
}

/// The sum and the difference of two amounts are exact whenever an amount can hold them at all.
pub proof fn law_arithmetic_is_exact_where_an_amount_can_hold_it(a: Dec, b: Dec, c: Dec)
    requires
        a.wf(),
        b.wf(),
        c.wf(),
    ensures
        c.units() == a.units() + b.units() ==> a.adds_exactly(b),
        c.units() == a.units() - b.units() ==> a.subtracts_exactly(b),
{
    let s = crate::amount::wider(a.scale, b.scale);
    lemma_zero_units(a);
    lemma_zero_units(b);
    lemma_negated_units(b);
    if c.scale <= s {
        lemma_nearest_representable(c, s);
    } else {
        // The result has no more places than the operands, and fits all the more with fewer.
        let f = crate::amount::pow10((c.scale - s) as nat);
        let p = crate::amount::pow10((MAX_SCALE - c.scale) as nat);
        let d = crate::amount::pow10((MAX_SCALE - s) as nat);
        let m = c.mantissa;
        let limit = MANTISSA_LIMIT as int;
        lemma_pow10_positive((c.scale - s) as nat);
        lemma_pow10_positive((MAX_SCALE - c.scale) as nat);
        lemma_pow10_adds((c.scale - s) as nat, (MAX_SCALE - c.scale) as nat);
        assert((c.scale - s) as nat + (MAX_SCALE - c.scale) as nat == (MAX_SCALE - s) as nat);
        assert(-limit * d < m * p < limit * d) by (nonlinear_arith)
            requires
                d == f * p,
                f >= 1,
                p >= 1,
                -limit < m < limit,
        ;
        law_arithmetic_is_exact_where_it_fits(a, b);
    }
}

/// Zero has the value zero, whatever its decimal places.
pub proof fn lemma_zero_units(a: Dec)
    ensures
        a.mantissa == 0 ==> a.units() == 0,
{
}

/// The value of a number with its sign flipped.
pub proof fn lemma_negated_units(a: Dec)
    ensures
        (Dec { mantissa: -a.mantissa, scale: a.scale }).units() == -a.units(),
{
    let p = crate::amount::pow10((MAX_SCALE - a.scale) as nat);
    let m = a.mantissa;
    assert((-m) * p == -(m * p)) by (nonlinear_arith);
}

/// What addition and subtraction yield is an amount again, has the sign of the true result, and is
/// off by at most half a step of the decimal places it is written with.
pub proof fn law_rounding_error_is_bounded(a: Dec, b: Dec)
    requires
        a.wf(),
        b.wf(),
    ensures
        a.plus(b) matches Some(c) ==> {
            &&& c.wf()
            &&& 2 * (c.units() - (a.units() + b.units())) <= crate::amount::pow10(
                (MAX_SCALE - c.scale) as nat,
            )
            &&& 2 * ((a.units() + b.units()) - c.units()) <= crate::amount::pow10(
                (MAX_SCALE - c.scale) as nat,
            )
            &&& a.units() + b.units() >= 0 ==> c.units() >= 0
        },
        a.minus(b) matches Some(c) ==> {
            &&& c.wf()
            &&& 2 * (c.units() - (a.units() - b.units())) <= crate::amount::pow10(
                (MAX_SCALE - c.scale) as nat,
            )
            &&& 2 * ((a.units() - b.units()) - c.units()) <= crate::amount::pow10(
                (MAX_SCALE - c.scale) as nat,
            )
            &&& a.units() - b.units() >= 0 ==> c.units() >= 0
        },
{
    let s = crate::amount::wider(a.scale, b.scale);
    lemma_nearest_close(a.units() + b.units(), s);
    lemma_nearest_close(a.units() - b.units(), s);
    lemma_zero_units(a);
    lemma_zero_units(b);
    lemma_negated_units(b);
    lemma_pow10_positive((MAX_SCALE - a.scale) as nat);
    lemma_pow10_positive((MAX_SCALE - b.scale) as nat);
}

/// `nearest` finds nothing exactly when the value, rounded to a whole number, has no mantissa that
/// fits.
proof fn lemma_nearest_out_of_range(units: int, scale: nat)
    requires
        scale <= MAX_SCALE,
    ensures
        crate::amount::nearest(units, scale) is None <==> !(-MANTISSA_LIMIT
            < crate::amount::half_even(units, crate::amount::pow10(MAX_SCALE as nat))
            < MANTISSA_LIMIT),
    decreases scale,
{
    let whole = crate::amount::pow10(MAX_SCALE as nat);
    if scale > 0 {
        lemma_nearest_out_of_range(units, (scale - 1) as nat);
        let d = crate::amount::pow10((MAX_SCALE - scale) as nat);
        let f = crate::amount::pow10((scale - 1) as nat);
        let m = crate::amount::half_even(units, d);
        let w = crate::amount::half_even(units, whole);
        let limit = MANTISSA_LIMIT as int;
        lemma_pow10_positive((MAX_SCALE - scale) as nat);
        lemma_pow10_positive((scale - 1) as nat);
        lemma_half_even_close(units, d);
        lemma_pow10_adds(scale, (MAX_SCALE - scale) as nat);
        assert(scale + (MAX_SCALE - scale) as nat == MAX_SCALE as nat);
        assert(crate::amount::pow10(scale) == 10 * f);
        assert(whole == (10 * f) * d);
        assert(whole >= 10 * d) by (nonlinear_arith)
            requires
                whole == (10 * f) * d,
                f >= 1,
                d >= 1,
        ;
        lemma_half_even_close(units, whole);
        if -limit < m < limit {
            assert(-limit < w < limit) by (nonlinear_arith)
                requires
                    -limit < m < limit,
                    -d <= 2 * (m * d - units) <= d,
                    -whole <= 2 * (w * whole - units) <= whole,
                    whole >= 10 * d,
                    d >= 1,
                    limit == 79228162514264337593543950336,
            ;
        }
    }
}

/// A number that an amount can hold stays in range when it is rounded to a whole number.
proof fn lemma_held_in_range(a: Dec)
    requires
        a.wf(),
    ensures
        -MANTISSA_LIMIT < crate::amount::half_even(
            a.units(),
            crate::amount::pow10(MAX_SCALE as nat),
        ) < MANTISSA_LIMIT,
{
    let d = crate::amount::pow10((MAX_SCALE - a.scale) as nat);
    let m = a.mantissa;
    let limit = MANTISSA_LIMIT as int;
    lemma_pow10_positive((MAX_SCALE - a.scale) as nat);
    assert(-limit * d < m * d < limit * d) by (nonlinear_arith)
        requires
            -limit < m < limit,
            d >= 1,
    ;
    lemma_nearest_exact(m, a.scale);
    lemma_nearest_out_of_range(a.units(), a.scale);
}

/// A sum or a difference is out of range exactly when, rounded half to even to a whole number, it
/// reaches `2^96` on either side of zero.
pub proof fn law_out_of_range_is_a_matter_of_size(a: Dec, b: Dec)
    requires
        a.wf(),
        b.wf(),
    ensures
        a.plus(b) is None <==> !(-MANTISSA_LIMIT < crate::amount::half_even(
            a.units() + b.units(),
            crate::amount::pow10(MAX_SCALE as nat),
        ) < MANTISSA_LIMIT),
        a.minus(b) is None <==> !(-MANTISSA_LIMIT < crate::amount::half_even(
            a.units() - b.units(),
            crate::amount::pow10(MAX_SCALE as nat),
        ) < MANTISSA_LIMIT),
{
    let s = crate::amount::wider(a.scale, b.scale);
    lemma_nearest_out_of_range(a.units() + b.units(), s);
    lemma_nearest_out_of_range(a.units() - b.units(), s);
    lemma_zero_units(a);
    lemma_zero_units(b);
    lemma_negated_units(b);
    // A number that an amount can hold stays in range when it is rounded.
    lemma_held_in_range(a);
    lemma_held_in_range(b);
    lemma_held_in_range(Dec { mantissa: -b.mantissa, scale: b.scale });
}

/// Dropping zeros at the end keeps the value, and leaves nothing more to drop.
pub proof fn law_stripping_keeps_the_value(a: Dec)
    requires
        a.wf(),
    ensures
        a.stripped().wf(),
        a.stripped().units() == a.units(),
        a.stripped().scale <= a.scale,
        a.stripped().scale == 0 || a.stripped().mantissa % 10 != 0,
        a.stripped().stripped() == a.stripped(),
    decreases a.scale,
{
    if a.mantissa != 0 && a.scale > 0 && a.mantissa % 10 == 0 {
        let b = Dec { mantissa: a.mantissa / 10, scale: (a.scale - 1) as nat };
        law_stripping_keeps_the_value(b);
        let p = crate::amount::pow10((MAX_SCALE - a.scale) as nat);
        let m = b.mantissa;
        assert((MAX_SCALE - b.scale) as nat == (MAX_SCALE - a.scale) as nat + 1);
        assert(crate::amount::pow10((MAX_SCALE - b.scale) as nat) == 10 * p);
        assert(a.mantissa == 10 * m);
        assert((10 * m) * p == m * (10 * p)) by (nonlinear_arith);
    }
    lemma_zero_units(a);
}

/// Rounding to a number of places gives an amount with no more places than that, off by at most
/// half a step; an amount that has no more places stays as it is.
pub proof fn law_rounding_to_places(a: Dec, places: nat)
    requires
        a.wf(),
    ensures
        a.rounded(places).wf(),
        a.rounded(places).scale <= places,
        a.scale <= places ==> a.rounded(places) == a,
        places <= MAX_SCALE ==> 2 * (a.rounded(places).units() - a.units())
            <= crate::amount::pow10((MAX_SCALE - places) as nat),
        places <= MAX_SCALE ==> 2 * (a.units() - a.rounded(places).units())
            <= crate::amount::pow10((MAX_SCALE - places) as nat),
{
    if a.scale > places {
        let d = crate::amount::pow10((a.scale - places) as nat);
        let p = crate::amount::pow10((MAX_SCALE - a.scale) as nat);
        let q = crate::amount::pow10((MAX_SCALE - places) as nat);
        lemma_pow10_positive((a.scale - places) as nat);
        lemma_pow10_positive((MAX_SCALE - a.scale) as nat);
        lemma_pow10_adds((a.scale - places) as nat, (MAX_SCALE - a.scale) as nat);
        assert((a.scale - places) as nat + (MAX_SCALE - a.scale) as nat == (MAX_SCALE
            - places) as nat);
        assert(q == d * p);
        lemma_half_even_close(a.mantissa, d);
        let h = crate::amount::half_even(a.mantissa, d);
        let m = a.mantissa;
        let limit = MANTISSA_LIMIT as int;
        assert(d >= 10) by {
            lemma_pow10_positive((a.scale - places - 1) as nat);
        }
        assert(-limit < h < limit) by (nonlinear_arith)
            requires
                -d <= 2 * (h * d - m) <= d,
                -limit < m < limit,
                d >= 10,
                limit == 79228162514264337593543950336,
        ;
        assert(2 * (h * q - m * p) == (2 * (h * d - m)) * p) by (nonlinear_arith)
            requires
                q == d * p,
        ;
        let e = 2 * (h * d - m);
        assert(-q <= e * p <= q) by (nonlinear_arith)
            requires
                -d <= e <= d,
                q == d * p,
                p >= 1,
        ;
        assert(2 * (m * p - h * q) == -(2 * (h * q - m * p)));
    } else {
        if places <= MAX_SCALE {
            lemma_pow10_positive((MAX_SCALE - places) as nat);
        }
    }
}

impl Dec {
    /// Whether the value `units * 10^-28` is less than half a unit past the largest amount, on
    /// either side of zero: these are the values that can be rounded to an amount.
    pub open spec fn in_range(units: int) -> bool {
        let whole = crate::amount::pow10(28);
        -(0x1_ffff_ffff_ffff_ffff_ffff_ffff * whole) < 2 * units
            < 0x1_ffff_ffff_ffff_ffff_ffff_ffff * whole
    }

    /// Whether this is an amount that the value `units * 10^-28` can be rounded to: it is off by at
    /// most half a step of its decimal places, and not at all where some amount has that value.
    pub open spec fn settles(self, units: int) -> bool {
        &&& self.wf()
        &&& 2 * (self.units() - units) <= crate::amount::pow10((28 - self.scale) as nat)
        &&& 2 * (units - self.units()) <= crate::amount::pow10((28 - self.scale) as nat)
        &&& forall|d: Dec| d.wf() && #[trigger] d.units() == units ==> self.units() == units
    }
}

/// Amounts have mantissas of up to 96 bits and up to 28 decimal places.
pub proof fn law_what_an_amount_can_hold(a: Dec)
    ensures
        a.wf() <==> -0x1_0000_0000_0000_0000_0000_0000 < a.mantissa
            < 0x1_0000_0000_0000_0000_0000_0000 && a.scale <= 28,
{
}

/// Rounding to a whole number stays below `2^96` exactly for values that are in range.
proof fn lemma_in_range(v: int)
    ensures
        Dec::in_range(v) <==> -MANTISSA_LIMIT < crate::amount::half_even(
            v,
            crate::amount::pow10(MAX_SCALE as nat),
        ) < MANTISSA_LIMIT,
{
    let w = crate::amount::pow10(28);
    let limit = 0x1_0000_0000_0000_0000_0000_0000int;
    lemma_pow10_positive(28);
    let q = v / w;
    let r = v % w;
    vstd::arithmetic::div_mod::lemma_fundamental_div_mod(v, w);
    vstd::arithmetic::div_mod::lemma_mod_bound(v, w);
    vstd::arithmetic::mul::lemma_mul_is_commutative(q, w);
    if q <= limit - 2 {
        assert(q * w <= 0xffff_ffff_ffff_ffff_ffff_fffe * w) by (nonlinear_arith)
            requires
                q <= limit - 2,
                w >= 1,
                limit == 0x1_0000_0000_0000_0000_0000_0000,
        ;
    }
    if q >= limit {
        assert(q * w >= 0x1_0000_0000_0000_0000_0000_0000 * w) by (nonlinear_arith)
            requires
                q >= limit,
                w >= 1,
                limit == 0x1_0000_0000_0000_0000_0000_0000,
        ;
    }
    if q >= -limit + 1 {
        assert(q * w >= -(0xffff_ffff_ffff_ffff_ffff_ffff * w)) by (nonlinear_arith)
            requires
                q >= -limit + 1,
                w >= 1,
                limit == 0x1_0000_0000_0000_0000_0000_0000,
        ;
    }
    if q <= -limit - 1 {
        assert(q * w <= -(0x1_0000_0000_0000_0000_0000_0001 * w)) by (nonlinear_arith)
            requires
                q <= -limit - 1,
                w >= 1,
                limit == 0x1_0000_0000_0000_0000_0000_0000,
        ;
    }
    if q == limit - 1 {
        assert(q * w == 0xffff_ffff_ffff_ffff_ffff_ffff * w);
    }
    if q == -limit {
        assert(q * w == -(0x1_0000_0000_0000_0000_0000_0000 * w)) by (nonlinear_arith)
            requires
                q == -limit,
                limit == 0x1_0000_0000_0000_0000_0000_0000,
        ;
    }
}

/// A sum or a difference exists exactly when the true one is in range, and then it is an amount
/// that the true one can be rounded to.
pub proof fn law_arithmetic_settles(a: Dec, b: Dec)
    requires
        a.wf(),
        b.wf(),
    ensures
        a.plus(b) is Some <==> Dec::in_range(a.units() + b.units()),
        a.plus(b) matches Some(c) ==> c.settles(a.units() + b.units()),
        a.minus(b) is Some <==> Dec::in_range(a.units() - b.units()),
        a.minus(b) matches Some(c) ==> c.settles(a.units() - b.units()),
{
    law_out_of_range_is_a_matter_of_size(a, b);
    lemma_in_range(a.units() + b.units());
    lemma_in_range(a.units() - b.units());
    law_rounding_error_is_bounded(a, b);
    assert forall|d: Dec| d.wf() && #[trigger] d.units() == a.units() + b.units() implies
        a.adds_exactly(b) by {
        law_arithmetic_is_exact_where_an_amount_can_hold_it(a, b, d);
    }
    assert forall|d: Dec| d.wf() && #[trigger] d.units() == a.units() - b.units() implies
        a.subtracts_exactly(b) by {
        law_arithmetic_is_exact_where_an_amount_can_hold_it(a, b, d);
    }
}

/// Where two numbers with the right number of places are equally near, rounding takes the even
/// one.
pub proof fn law_ties_go_to_the_even_neighbour(a: Dec, places: nat)
    requires
        a.wf(),
        places < a.scale,
    ensures
        ({
            let step = crate::amount::pow10((28 - places) as nat);
            let error = a.rounded(places).units() - a.units();
            (2 * error == step || 2 * error == -step) ==> a.rounded(places).mantissa % 2 == 0
        }),
{
    let d = crate::amount::pow10((a.scale - places) as nat);
    let p = crate::amount::pow10((MAX_SCALE - a.scale) as nat);
    let step = crate::amount::pow10((28 - places) as nat);
    lemma_pow10_positive((a.scale - places) as nat);
    lemma_pow10_positive((MAX_SCALE - a.scale) as nat);
    lemma_pow10_adds((a.scale - places) as nat, (MAX_SCALE - a.scale) as nat);
    assert((a.scale - places) as nat + (MAX_SCALE - a.scale) as nat == (28 - places) as nat);
    let m = a.mantissa;
    let h = a.rounded(places).mantissa;
    let q = m / d;
    let r = m % d;
    vstd::arithmetic::div_mod::lemma_fundamental_div_mod(m, d);
    vstd::arithmetic::div_mod::lemma_mod_bound(m, d);
    vstd::arithmetic::mul::lemma_mul_is_commutative(q, d);
    assert((q + 1) * d == q * d + d) by (nonlinear_arith);
    let e = h * d - m;
    assert(h * step - m * p == e * p) by (nonlinear_arith)
        requires
            step == d * p,
            e == h * d - m,
    ;
    if 2 * (e * p) == step {
        assert(2 * e == d) by (nonlinear_arith)
            requires
                2 * (e * p) == step,
                step == d * p,
                p >= 1,
        ;
    }
    if 2 * (e * p) == -step {
        assert(2 * e == -d) by (nonlinear_arith)
            requires
                2 * (e * p) == -step,
                step == d * p,
                p >= 1,
        ;
    }
}

} // verus!
