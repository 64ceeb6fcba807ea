//! Decimal amounts of money.
//!
//! An [`Amount`] holds what a `rust_decimal::Decimal` holds: an integer mantissa of at most 96
//! bits and the number of decimal places. Arithmetic, comparison, rounding and formatting are
//! done by `rust_decimal`; the spec functions below say what each of them yields.

use rust_decimal::Decimal;
use vstd::prelude::*;

verus! {

/// The largest number of decimal places.
pub const MAX_SCALE: u32 = 28;

/// Mantissas lie strictly between `-MANTISSA_LIMIT` and `MANTISSA_LIMIT`, which is `2^96`.
pub const MANTISSA_LIMIT: i128 = 79228162514264337593543950336;

/// `10^n`.
pub open spec fn pow10(n: nat) -> int
    decreases n,
{
    if n == 0 {
        1
    } else {
        10 * pow10((n - 1) as nat)
    }
}

/// `n / d` rounded to the nearest integer, a tie going to the even neighbour.
pub open spec fn half_even(n: int, d: int) -> int {
    let q = n / d;
    let r = n % d;
    if 2 * r < d || (2 * r == d && q % 2 == 0) {
        q
    } else {
        q + 1
    }
}

/// The number `mantissa / 10^scale`, together with the number of places it is written with.
pub struct Dec {
    pub mantissa: int,
    pub scale: nat,
}

impl Dec {
    /// The zero that has no decimal places.
    pub open spec fn zero() -> Dec {
        Dec { mantissa: 0, scale: 0 }
    }

    /// Whether an amount can hold this number.
    pub open spec fn wf(self) -> bool {
        &&& -MANTISSA_LIMIT < self.mantissa < MANTISSA_LIMIT
        &&& self.scale <= MAX_SCALE
    }

    /// The value, counted in units of `10^-28`, the smallest step an amount can have.
    pub open spec fn units(self) -> int {
        self.mantissa * pow10((MAX_SCALE - self.scale) as nat)
    }

    /// What adding `b` yields; `None` when the sum is out of range.
    pub open spec fn plus(self, b: Dec) -> Option<Dec> {
        if self.mantissa == 0 {
            Some(b)
        } else if b.mantissa == 0 {
            Some(self)
        } else {
            nearest(self.units() + b.units(), wider(self.scale, b.scale))
        }
    }

    /// What subtracting `b` yields; `None` when the difference is out of range.
    pub open spec fn minus(self, b: Dec) -> Option<Dec> {
        if self.mantissa == 0 {
            Some(Dec { mantissa: -b.mantissa, scale: b.scale })
        } else if b.mantissa == 0 {
            Some(self)
        } else {
            nearest(self.units() - b.units(), wider(self.scale, b.scale))
        }
    }

    /// This number rounded half to even to at most `places` decimal places.
    pub open spec fn rounded(self, places: nat) -> Dec {
        if self.scale <= places {
            self
        } else {
            Dec {
                mantissa: half_even(self.mantissa, pow10((self.scale - places) as nat)),
                scale: places,
            }
        }
    }

    /// This number without the zeros at the end of its decimal places.
    pub open spec fn stripped(self) -> Dec
        decreases self.scale,
    {
        if self.mantissa == 0 {
            Dec::zero()
        } else if self.scale > 0 && self.mantissa % 10 == 0 {
            Dec { mantissa: self.mantissa / 10, scale: (self.scale - 1) as nat }.stripped()
        } else {
            self
        }
    }

    /// This number as it is printed: a minus sign where it is negative, the whole part, and
    /// behind a point as many decimal places as it is written with.
    pub open spec fn text(self) -> Seq<char> {
        let magnitude = (if self.mantissa < 0 {
            -self.mantissa
        } else {
            self.mantissa
        }) as nat;
        let sign = if self.mantissa < 0 {
            seq!['-']
        } else {
            seq![]
        };
        let whole = decimal_text(magnitude / (pow10(self.scale) as nat));
        let places = if self.scale == 0 {
            seq![]
        } else {
            seq!['.'] + padded_text(magnitude, self.scale)
        };
        sign + whole + places
    }

    /// The number that an operation which can go out of range has returned, if it has.
    pub open spec fn of(r: Option<Amount>) -> Option<Dec> {
        match r {
            Some(a) => Some(a@),
            None => None,
        }
    }
}

/// The value `units * 10^-28`, written with `scale` decimal places or, where its mantissa would
/// not fit, with the largest smaller number of places for which it does; rounded half to even.
/// `None` when it does not even fit without decimal places.
pub open spec fn nearest(units: int, scale: nat) -> Option<Dec>
    decreases scale,
{
    let mantissa = half_even(units, pow10((MAX_SCALE - scale) as nat));
    if -MANTISSA_LIMIT < mantissa < MANTISSA_LIMIT {
        Some(Dec { mantissa, scale })
    } else if scale == 0 {
        None
    } else {
        nearest(units, (scale - 1) as nat)
    }
}

/// The larger of two numbers of decimal places.
pub open spec fn wider(a: nat, b: nat) -> nat {
    if a < b {
        b
    } else {
        a
    }
}

/// The decimal digit that stands for `d`.
pub open spec fn digit(d: int) -> char {
    seq!['0', '1', '2', '3', '4', '5', '6', '7', '8', '9'][d]
}

/// `n` in decimal notation, without leading zeros.
pub open spec fn decimal_text(n: nat) -> Seq<char>
    decreases n,
{
    if n < 10 {
        seq![digit(n as int)]
    } else {
        decimal_text(n / 10).push(digit((n % 10) as int))
    }
}

/// The last `width` digits of `n`, with leading zeros where `n` has fewer.
pub open spec fn padded_text(n: nat, width: nat) -> Seq<char>
    decreases width,
{
    if width == 0 {
        seq![]
    } else {
        padded_text(n / 10, (width - 1) as nat).push(digit((n % 10) as int))
    }
}

/// An amount of money: a decimal number with at most 28 decimal places.
#[derive(Clone, Copy, Debug)]
pub struct Amount {
    mantissa: i128,
    scale: u32,
}

impl View for Amount {
    type V = Dec;

    closed spec fn view(&self) -> Dec {
        Dec { mantissa: self.mantissa as int, scale: self.scale as nat }
    }
}

/// `rust_decimal::Decimal::checked_add`, which is the `+` of that type but for the panic on
/// overflow: the sum, rounded half to even where it has more digits than fit, or `None`.
/// Where one operand is zero the other comes back as it is.
#[verifier::external_body]
fn decimal_checked_add(a: Amount, b: Amount) -> (r: Option<Amount>)
    requires
        a@.wf(),
        b@.wf(),
    ensures
        Dec::of(r) == a@.plus(b@),
{
    let x = Decimal::from_i128_with_scale(a.mantissa, a.scale);
    let y = Decimal::from_i128_with_scale(b.mantissa, b.scale);
    match x.checked_add(y) {
        Some(d) => Some(Amount { mantissa: d.mantissa(), scale: d.scale() }),
        None => None,
    }
}

/// `rust_decimal::Decimal::checked_sub`, which is the `-` of that type but for the panic on
/// overflow: the difference, rounded half to even where it has more digits than fit, or `None`.
/// Zero minus an operand is that operand negated, and an operand minus zero comes back as it is.
#[verifier::external_body]
fn decimal_checked_sub(a: Amount, b: Amount) -> (r: Option<Amount>)
    requires
        a@.wf(),
        b@.wf(),
    ensures
        Dec::of(r) == a@.minus(b@),
{
    let x = Decimal::from_i128_with_scale(a.mantissa, a.scale);
    let y = Decimal::from_i128_with_scale(b.mantissa, b.scale);
    match x.checked_sub(y) {
        Some(d) => Some(Amount { mantissa: d.mantissa(), scale: d.scale() }),
        None => None,
    }
}

/// The `<` of `rust_decimal::Decimal`: it compares the values, whatever their decimal places.
#[verifier::external_body]
fn decimal_lt(a: Amount, b: Amount) -> (r: bool)
    requires
        a@.wf(),
        b@.wf(),
    ensures
        r == (a@.units() < b@.units()),
{
    let x = Decimal::from_i128_with_scale(a.mantissa, a.scale);
    let y = Decimal::from_i128_with_scale(b.mantissa, b.scale);
    x < y
}

/// The `==` of `rust_decimal::Decimal`: it compares the values, whatever their decimal places.
#[verifier::external_body]
fn decimal_eq(a: Amount, b: Amount) -> (r: bool)
    requires
        a@.wf(),
        b@.wf(),
    ensures
        r == (a@.units() == b@.units()),
{
    let x = Decimal::from_i128_with_scale(a.mantissa, a.scale);
    let y = Decimal::from_i128_with_scale(b.mantissa, b.scale);
    x == y
}

/// `rust_decimal::Decimal::round_dp`: rounds half to even to `places` decimal places; a number
/// that has no more places than that comes back as it is.
#[verifier::external_body]
fn decimal_round_dp(a: Amount, places: u32) -> (r: Amount)
    requires
        a@.wf(),
    ensures
        r@ == a@.rounded(places as nat),
{
    let d = Decimal::from_i128_with_scale(a.mantissa, a.scale).round_dp(places);
    Amount { mantissa: d.mantissa(), scale: d.scale() }
}

/// `rust_decimal::Decimal::normalize`: drops the zeros at the end of the decimal places; zero
/// loses all its places.
#[verifier::external_body]
fn decimal_normalize(a: Amount) -> (r: Amount)
    requires
        a@.wf(),
    ensures
        r@ == a@.stripped(),
{
    let d = Decimal::from_i128_with_scale(a.mantissa, a.scale).normalize();
    Amount { mantissa: d.mantissa(), scale: d.scale() }
}

/// `to_string` of `rust_decimal::Decimal`: plain decimal notation, with every decimal place the
/// number is written with.
#[verifier::external_body]
fn decimal_to_string(a: Amount) -> (r: String)
    requires
        a@.wf(),
    ensures
        r@ == a@.text(),
{
    Decimal::from_i128_with_scale(a.mantissa, a.scale).to_string()
}

impl PartialEq for Amount {
    fn eq(&self, other: &Amount) -> (r: bool) {
        proof {
            use_type_invariant(self);
            use_type_invariant(other);
        }
        decimal_eq(*self, *other)
    }
}

impl vstd::std_specs::cmp::PartialEqSpecImpl for Amount {
    open spec fn obeys_eq_spec() -> bool {
        true
    }

    open spec fn eq_spec(&self, other: &Amount) -> bool {
        self@.units() == other@.units()
    }
}

impl Amount {
    #[verifier::type_invariant]
    pub closed spec fn inv(self) -> bool {
        self@.wf()
    }

    /// The amount `mantissa / 10^scale`, if there is one.
    pub fn new(mantissa: i128, scale: u32) -> (r: Option<Amount>)
        ensures
            r is Some <==> (Dec { mantissa: mantissa as int, scale: scale as nat }).wf(),
            r matches Some(a) ==> a@ == (Dec { mantissa: mantissa as int, scale: scale as nat }),
    {
        if scale > MAX_SCALE || mantissa <= -MANTISSA_LIMIT || mantissa >= MANTISSA_LIMIT {
            None
        } else {
            Some(Amount { mantissa, scale })
        }
    }

    /// Zero, without decimal places.
    pub fn zero() -> (r: Amount)
        ensures
            r@ == Dec::zero(),
    {
        Amount { mantissa: 0, scale: 0 }
    }

    /// The mantissa: the amount without its decimal point.
    pub fn mantissa(self) -> (r: i128)
        ensures
            r == self@.mantissa,
            self@.wf(),
    {
        proof {
            use_type_invariant(&self);
        }
        self.mantissa
    }

    /// The number of decimal places.
    pub fn scale(self) -> (r: u32)
        ensures
            r == self@.scale,
            self@.wf(),
    {
        proof {
            use_type_invariant(&self);
        }
        self.scale
    }

    /// The sum of two amounts, or `None` when it is out of range.
    pub fn checked_add(self, other: Amount) -> (r: Option<Amount>)
        ensures
            Dec::of(r) == self@.plus(other@),
    {
        proof {
            use_type_invariant(&self);
            use_type_invariant(&other);
        }
        decimal_checked_add(self, other)
    }

    /// The difference of two amounts, or `None` when it is out of range.
    pub fn checked_sub(self, other: Amount) -> (r: Option<Amount>)
        ensures
            Dec::of(r) == self@.minus(other@),
    {
        proof {
            use_type_invariant(&self);
            use_type_invariant(&other);
        }
        decimal_checked_sub(self, other)
    }

    /// Whether the value of this amount is below that of `other`.
    pub fn is_less_than(self, other: Amount) -> (r: bool)
        ensures
            r == (self@.units() < other@.units()),
    {
        proof {
            use_type_invariant(&self);
            use_type_invariant(&other);
        }
        decimal_lt(self, other)
    }

    /// This amount rounded half to even to at most `places` decimal places.
    pub fn round_dp(self, places: u32) -> (r: Amount)
        ensures
            r@ == self@.rounded(places as nat),
    {
        proof {
            use_type_invariant(&self);
        }
        decimal_round_dp(self, places)
    }

    /// This amount without the zeros at the end of its decimal places.
    pub fn normalize(self) -> (r: Amount)
        ensures
            r@ == self@.stripped(),
    {
        proof {
            use_type_invariant(&self);
        }
        decimal_normalize(self)
    }

    /// This amount in plain decimal notation.
    pub fn text(self) -> (r: String)
        ensures
            r@ == self@.text(),
    {
        proof {
            use_type_invariant(&self);
        }
        decimal_to_string(self)
    }
}

} // verus!
