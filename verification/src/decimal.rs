//! Fixed-point decimal numbers with eighteen fractional digits.
//!
//! A `Decimal` is an integer count of attos (10^-18 units). Addition,
//! subtraction and comparison work on the atto count directly; products,
//! quotients and rounding are computed by the Scrypto `Decimal` type and
//! stated here in terms of truncating integer division.
use vstd::prelude::*;
use crate::text::{
    digits,
    int_text,
    zero_padded,
    trim_zeros,
    no_bar,
    lemma_no_bar_add,
    lemma_int_text_no_bar,
    lemma_fraction_no_bar,
};

verus! {

/// Number of attos in one unit (10^18).
pub open spec fn one_attos() -> int {
    1_000_000_000_000_000_000
}

/// Number of attos in one unit, as an executable constant.
pub const ONE_ATTOS: i128 = 1_000_000_000_000_000_000i128;

/// Whether an integer fits the atto range this library stores.
pub open spec fn in_range(v: int) -> bool {
    i128::MIN <= v <= i128::MAX
}

/// Integer division that rounds toward zero, as machine integers divide.
pub open spec fn tdiv(a: int, b: int) -> int {
    if a >= 0 {
        if b > 0 {
            a / b
        } else {
            -(a / (-b))
        }
    } else {
        if b > 0 {
            -((-a) / b)
        } else {
            (-a) / (-b)
        }
    }
}

/// Attos of the product of two decimals given by their attos.
pub open spec fn mul_attos(a: int, b: int) -> int {
    tdiv(a * b, one_attos())
}

/// Attos of the quotient of two decimals given by their attos.
pub open spec fn div_attos(a: int, b: int) -> int {
    tdiv(a * one_attos(), b)
}

/// `a` rounded up to the next multiple of `d` (unchanged when it is one).
pub open spec fn ceil_to(a: int, d: int) -> int {
    if a % d == 0 {
        a
    } else {
        a - a % d + d
    }
}

/// `a` rounded to the nearest multiple of `d`; a value exactly halfway
/// goes away from zero.
pub open spec fn nearest_to(a: int, d: int) -> int {
    let r = a % d;
    if r == 0 {
        a
    } else if 2 * r < d {
        a - r
    } else if 2 * r > d {
        a - r + d
    } else if a > 0 {
        a - r + d
    } else {
        a - r
    }
}

/// A fixed-point number: `attos` counts units of 10^-18.
#[derive(Clone, Copy, Debug, PartialEq, Eq, Structural)]
pub struct Decimal {
    pub attos: i128,
}

impl View for Decimal {
    type V = int;

    open spec fn view(&self) -> int {
        self.attos as int
    }
}

/// The product of two atto counts, computed by Scrypto's `Decimal` multiplication.
///
/// Calls `<scrypto::prelude::Decimal as Mul>::mul`. Claimed: for inputs whose
/// exact product, divided by 10^18 and truncated toward zero, fits an `i128`,
/// the call does not panic and returns that truncated quotient (the source
/// multiplies in 256 bits and divides by 10^18 with truncation).
#[verifier::external_body]
fn scrypto_mul(a: i128, b: i128) -> (r: i128)
    requires
        in_range(mul_attos(a as int, b as int)),
    ensures
        r as int == mul_attos(a as int, b as int),
{
    let x = scrypto::prelude::Decimal::from_attos(scrypto::prelude::I192::from(a));
    let y = scrypto::prelude::Decimal::from_attos(scrypto::prelude::I192::from(b));
    i128::try_from((x * y).attos()).unwrap()
}

/// The quotient of two atto counts, computed by Scrypto's `Decimal` division.
///
/// Calls `<scrypto::prelude::Decimal as Div>::div`. Claimed: for a non-zero
/// divisor and a truncated quotient `a * 10^18 / b` that fits an `i128`, the
/// call does not panic and returns that quotient truncated toward zero.
#[verifier::external_body]
fn scrypto_div(a: i128, b: i128) -> (r: i128)
    requires
        b != 0,
        in_range(div_attos(a as int, b as int)),
    ensures
        r as int == div_attos(a as int, b as int),
{
    let x = scrypto::prelude::Decimal::from_attos(scrypto::prelude::I192::from(a));
    let y = scrypto::prelude::Decimal::from_attos(scrypto::prelude::I192::from(b));
    i128::try_from((x / y).attos()).unwrap()
}

/// Rounds an atto count with Scrypto's `Decimal::checked_round`, to two
/// decimal places toward positive infinity.
///
/// Claimed: the result is the least multiple of 10^16 that is not below the
/// input; the call does not fail when that multiple fits an `i128`.
#[verifier::external_body]
fn scrypto_round_up_hundredths(a: i128) -> (r: i128)
    requires
        in_range(ceil_to(a as int, 10_000_000_000_000_000)),
    ensures
        r as int == ceil_to(a as int, 10_000_000_000_000_000),
{
    let x = scrypto::prelude::Decimal::from_attos(scrypto::prelude::I192::from(a));
    let mode = scrypto::prelude::RoundingMode::ToPositiveInfinity;
    i128::try_from(x.checked_round(2, mode).unwrap().attos()).unwrap()
}

/// Rounds an atto count with Scrypto's `Decimal::checked_round`, to one
/// decimal place, to the nearest, halfway away from zero.
///
/// Claimed: the result is the multiple of 10^17 nearest to the input, a tie
/// going away from zero; the call does not fail when it fits an `i128`.
#[verifier::external_body]
fn scrypto_round_nearest_tenths(a: i128) -> (r: i128)
    requires
        in_range(nearest_to(a as int, 100_000_000_000_000_000)),
    ensures
        r as int == nearest_to(a as int, 100_000_000_000_000_000),
{
    let x = scrypto::prelude::Decimal::from_attos(scrypto::prelude::I192::from(a));
    let mode = scrypto::prelude::RoundingMode::ToNearestMidpointAwayFromZero;
    i128::try_from(x.checked_round(1, mode).unwrap().attos()).unwrap()
}

/// The product of two atto counts by Scrypto's `CheckedMul` for `Decimal`.
///
/// Claimed: the call gives a value exactly when the product, divided by
/// 10^18 and truncated toward zero, fits an `i128`, and then gives that
/// quotient (the source multiplies in 256 bits, divides with truncation and
/// narrows to 192 bits; the narrowing to `i128` here fails on the rest).
#[verifier::external_body]
fn scrypto_checked_mul(a: i128, b: i128) -> (r: Option<i128>)
    ensures
        r is Some <==> in_range(mul_attos(a as int, b as int)),
        r matches Some(v) ==> v as int == mul_attos(a as int, b as int),
{
    let x = scrypto::prelude::Decimal::from_attos(scrypto::prelude::I192::from(a));
    let y = scrypto::prelude::Decimal::from_attos(scrypto::prelude::I192::from(b));
    match scrypto::prelude::CheckedMul::checked_mul(x, y) {
        Some(d) => i128::try_from(d.attos()).ok(),
        None => None,
    }
}

/// The quotient of two atto counts by Scrypto's `CheckedDiv` for `Decimal`.
///
/// Claimed: for a non-zero divisor the call gives a value exactly when
/// `a * 10^18 / b`, truncated toward zero, fits an `i128`, and then gives it.
#[verifier::external_body]
fn scrypto_checked_div(a: i128, b: i128) -> (r: Option<i128>)
    requires
        b != 0,
    ensures
        r is Some <==> in_range(div_attos(a as int, b as int)),
        r matches Some(v) ==> v as int == div_attos(a as int, b as int),
{
    let x = scrypto::prelude::Decimal::from_attos(scrypto::prelude::I192::from(a));
    let y = scrypto::prelude::Decimal::from_attos(scrypto::prelude::I192::from(b));
    match scrypto::prelude::CheckedDiv::checked_div(x, y) {
        Some(d) => i128::try_from(d.attos()).ok(),
        None => None,
    }
}

/// The whole units of an atto count, truncated toward zero.
pub open spec fn whole_units(attos: int) -> int {
    if attos >= 0 {
        attos / one_attos()
    } else {
        -((-attos) / one_attos())
    }
}

/// The text Scrypto's `Decimal` displays for an atto count: the whole
/// units (truncated toward zero) as an integer; when attos remain, a `.`
/// and their count written with eighteen digits, trailing zeros dropped,
/// with a `-` in front when the whole units are zero and the count is
/// negative.
pub open spec fn decimal_text(attos: int) -> Seq<char> {
    let q = whole_units(attos);
    let r = attos - q * one_attos();
    if r == 0 {
        int_text(q)
    } else {
        let sign = if r < 0 && q == 0 {
            "-"@
        } else {
            Seq::empty()
        };
        let rest = if r < 0 {
            -r
        } else {
            r
        };
        sign + int_text(q) + "."@ + trim_zeros(zero_padded(digits(rest as nat), 18))
    }
}

/// The text of an atto count as Scrypto's `Decimal` displays it.
///
/// Calls `to_string`, which goes through `<scrypto::prelude::Decimal as
/// Display>::fmt`. Claimed: that `Display` writes the quotient by 10^18
/// (truncated toward zero) and, for a non-zero remainder, a `.` and the
/// remainder's magnitude zero-padded to eighteen digits with trailing zeros
/// trimmed, signed `-` when the quotient is zero and the remainder
/// negative (`decimal_text`).
#[verifier::external_body]
fn scrypto_text(a: i128) -> (r: String)
    ensures
        r@ == decimal_text(a as int),
{
    let x = scrypto::prelude::Decimal::from_attos(scrypto::prelude::I192::from(a));
    x.to_string()
}

impl Decimal {
    /// Zero.
    pub fn zero() -> (r: Decimal)
        ensures
            r@ == 0,
    {
        Decimal { attos: 0 }
    }

    /// One.
    pub fn one() -> (r: Decimal)
        ensures
            r@ == one_attos(),
    {
        Decimal { attos: ONE_ATTOS }
    }

    /// The decimal with the given number of attos.
    pub fn from_attos(attos: i128) -> (r: Decimal)
        ensures
            r@ == attos,
    {
        Decimal { attos }
    }

    /// The decimal whose value is the whole number `n`.
    pub fn from_u64(n: u64) -> (r: Decimal)
        ensures
            r@ == n * one_attos(),
    {
        assert(n * one_attos() <= 18_446_744_073_709_551_615 * one_attos()) by (nonlinear_arith)
            requires
                n <= 18_446_744_073_709_551_615,
        ;
        Decimal { attos: (n as i128) * ONE_ATTOS }
    }

    /// The decimal `mantissa * 10^-places`, for instance `new(952, 2)` is 9.52.
    pub fn new(mantissa: i64, places: u32) -> (r: Decimal)
        requires
            places <= 18,
        ensures
            r@ == mantissa * attos_per_step(places),
    {
        let scale: i128 = match places {
            0 => 1000000000000000000i128,
            1 => 100000000000000000i128,
            2 => 10000000000000000i128,
            3 => 1000000000000000i128,
            4 => 100000000000000i128,
            5 => 10000000000000i128,
            6 => 1000000000000i128,
            7 => 100000000000i128,
            8 => 10000000000i128,
            9 => 1000000000i128,
            10 => 100000000i128,
            11 => 10000000i128,
            12 => 1000000i128,
            13 => 100000i128,
            14 => 10000i128,
            15 => 1000i128,
            16 => 100i128,
            17 => 10i128,
            _ => 1i128,
        };
        assert(mantissa * scale <= 9_223_372_036_854_775_807 * 1_000_000_000_000_000_000)
            by (nonlinear_arith)
            requires
                mantissa <= 9_223_372_036_854_775_807,
                0 < scale <= 1_000_000_000_000_000_000,
        ;
        assert(mantissa * scale >= -9_223_372_036_854_775_808 * 1_000_000_000_000_000_000)
            by (nonlinear_arith)
            requires
                mantissa >= -9_223_372_036_854_775_808,
                0 < scale <= 1_000_000_000_000_000_000,
        ;
        Decimal { attos: (mantissa as i128) * scale }
    }

    /// Sum; the sum must fit.
    pub fn add(self, other: Decimal) -> (r: Decimal)
        requires
            in_range(self@ + other@),
        ensures
            r@ == self@ + other@,
    {
        Decimal { attos: self.attos + other.attos }
    }

    /// Difference; it must fit.
    pub fn sub(self, other: Decimal) -> (r: Decimal)
        requires
            in_range(self@ - other@),
        ensures
            r@ == self@ - other@,
    {
        Decimal { attos: self.attos - other.attos }
    }

    /// Negation.
    pub fn neg(self) -> (r: Decimal)
        requires
            in_range(-self@),
        ensures
            r@ == -self@,
    {
        Decimal { attos: -self.attos }
    }

    /// Product, truncated toward zero to eighteen places.
    pub fn mul(self, other: Decimal) -> (r: Decimal)
        requires
            in_range(mul_attos(self@, other@)),
        ensures
            r@ == mul_attos(self@, other@),
    {
        Decimal { attos: scrypto_mul(self.attos, other.attos) }
    }

    /// Quotient, truncated toward zero to eighteen places.
    pub fn div(self, other: Decimal) -> (r: Decimal)
        requires
            other@ != 0,
            in_range(div_attos(self@, other@)),
        ensures
            r@ == div_attos(self@, other@),
    {
        Decimal { attos: scrypto_div(self.attos, other.attos) }
    }

    /// Sum, or `None` where it leaves the decimal range.
    pub fn checked_add(self, other: Decimal) -> (r: Option<Decimal>)
        ensures
            r is Some <==> in_range(self@ + other@),
            r matches Some(v) ==> v@ == self@ + other@,
    {
        match self.attos.checked_add(other.attos) {
            Some(a) => Some(Decimal { attos: a }),
            None => None,
        }
    }

    /// Difference, or `None` where it leaves the decimal range.
    pub fn checked_sub(self, other: Decimal) -> (r: Option<Decimal>)
        ensures
            r is Some <==> in_range(self@ - other@),
            r matches Some(v) ==> v@ == self@ - other@,
    {
        match self.attos.checked_sub(other.attos) {
            Some(a) => Some(Decimal { attos: a }),
            None => None,
        }
    }

    /// Product truncated toward zero, or `None` where it leaves the range.
    pub fn checked_mul(self, other: Decimal) -> (r: Option<Decimal>)
        ensures
            r is Some <==> in_range(mul_attos(self@, other@)),
            r matches Some(v) ==> v@ == mul_attos(self@, other@),
    {
        match scrypto_checked_mul(self.attos, other.attos) {
            Some(a) => Some(Decimal { attos: a }),
            None => None,
        }
    }

    /// Quotient truncated toward zero, or `None` for a zero divisor or a
    /// quotient out of range.
    pub fn checked_div(self, other: Decimal) -> (r: Option<Decimal>)
        ensures
            r is Some <==> other@ != 0 && in_range(div_attos(self@, other@)),
            r matches Some(v) ==> v@ == div_attos(self@, other@),
    {
        if other.attos == 0 {
            return None;
        }
        match scrypto_checked_div(self.attos, other.attos) {
            Some(a) => Some(Decimal { attos: a }),
            None => None,
        }
    }

    /// `self < other`.
    pub fn lt(self, other: Decimal) -> (r: bool)
        ensures
            r == (self@ < other@),
    {
        self.attos < other.attos
    }

    /// `self <= other`.
    pub fn le(self, other: Decimal) -> (r: bool)
        ensures
            r == (self@ <= other@),
    {
        self.attos <= other.attos
    }

    /// `self > other`.
    pub fn gt(self, other: Decimal) -> (r: bool)
        ensures
            r == (self@ > other@),
    {
        self.attos > other.attos
    }

    /// `self >= other`.
    pub fn ge(self, other: Decimal) -> (r: bool)
        ensures
            r == (self@ >= other@),
    {
        self.attos >= other.attos
    }

    /// `self == other`.
    pub fn eq(self, other: Decimal) -> (r: bool)
        ensures
            r == (self@ == other@),
    {
        self.attos == other.attos
    }

    /// Whether the value is zero.
    pub fn is_zero(self) -> (r: bool)
        ensures
            r == (self@ == 0),
    {
        self.attos == 0
    }

    /// The smaller of the two values.
    pub fn min(self, other: Decimal) -> (r: Decimal)
        ensures
            r@ == if self@ <= other@ {
                self@
            } else {
                other@
            },
    {
        if self.attos <= other.attos {
            self
        } else {
            other
        }
    }

    /// The decimal's text, as Scrypto displays it.
    pub fn to_text(self) -> (r: String)
        ensures
            r@ == decimal_text(self@),
    {
        scrypto_text(self.attos)
    }

    /// Rounds up to two decimal places (toward positive infinity).
    pub fn round_up_hundredths(self) -> (r: Decimal)
        requires
            in_range(ceil_to(self@, 10_000_000_000_000_000)),
        ensures
            r@ == ceil_to(self@, 10_000_000_000_000_000),
    {
        Decimal { attos: scrypto_round_up_hundredths(self.attos) }
    }

    /// Rounds up to whole units (toward positive infinity), as Scrypto's
    /// `checked_round(0, ToPositiveInfinity)` does; `None` when the result
    /// leaves the range.
    pub fn checked_round_up_units(self) -> (r: Option<Decimal>)
        ensures
            r is Some <==> in_range(ceil_to(self@, one_attos())),
            r matches Some(v) ==> v@ == ceil_to(self@, one_attos()),
    {
        let a = self.attos;
        let rem = a % ONE_ATTOS;
        proof {
            let d = one_attos();
            let ai = a as int;
            let t = ai - tdiv(ai, d) * d;
            assert(rem == t);
            assert(ai == (ai / d) * d + ai % d);
            if ai >= 0 {
                assert(tdiv(ai, d) == ai / d);
            } else {
                assert(tdiv(ai, d) == -((-ai) / d));
                assert((-ai) == ((-ai) / d) * d + (-ai) % d);
            }
        }
        if rem == 0 {
            Some(self)
        } else if rem > 0 {
            match (a - rem).checked_add(ONE_ATTOS) {
                Some(v) => Some(Decimal { attos: v }),
                None => None,
            }
        } else {
            Some(Decimal { attos: a - rem })
        }
    }

    /// Rounds to one decimal place, to the nearest, halfway away from zero.
    pub fn round_nearest_tenths(self) -> (r: Decimal)
        requires
            in_range(nearest_to(self@, 100_000_000_000_000_000)),
        ensures
            r@ == nearest_to(self@, 100_000_000_000_000_000),
    {
        Decimal { attos: scrypto_round_nearest_tenths(self.attos) }
    }
}

/// Rounding a non-negative amount up to a multiple of `d` keeps it
/// non-negative and adds less than `d`.
pub proof fn lemma_ceil_to_nonneg(a: int)
    requires
        a >= 0,
    ensures
        a <= ceil_to(a, 10_000_000_000_000_000) < a + 10_000_000_000_000_000,
{
}

/// Attos in one step of the last of `places` decimal places: 10^(18 - places).
pub open spec fn attos_per_step(places: u32) -> int {
    match places {
        0 => 1000000000000000000,
        1 => 100000000000000000,
        2 => 10000000000000000,
        3 => 1000000000000000,
        4 => 100000000000000,
        5 => 10000000000000,
        6 => 1000000000000,
        7 => 100000000000,
        8 => 10000000000,
        9 => 1000000000,
        10 => 100000000,
        11 => 10000000,
        12 => 1000000,
        13 => 100000,
        14 => 10000,
        15 => 1000,
        16 => 100,
        17 => 10,
        _ => 1,
    }
}

/// The text of a decimal holds no `|`.
pub proof fn lemma_decimal_text_no_bar(attos: int)
    ensures
        no_bar(decimal_text(attos)),
{
    reveal_strlit("-");
    reveal_strlit(".");
    let q = whole_units(attos);
    let r = attos - q * one_attos();
    lemma_int_text_no_bar(q);
    if r != 0 {
        let rest = if r < 0 {
            -r
        } else {
            r
        };
        let sign = if r < 0 && q == 0 {
            "-"@
        } else {
            Seq::<char>::empty()
        };
        lemma_fraction_no_bar(rest as nat, 18);
        lemma_no_bar_add(sign, int_text(q));
        lemma_no_bar_add(sign + int_text(q), "."@);
        lemma_no_bar_add(sign + int_text(q) + "."@, trim_zeros(zero_padded(digits(rest as nat), 18)));
    }
}

/// Truncating division of a non-negative integer by a positive one is
/// floor division: the quotient times the divisor is at most the dividend
/// and less than a divisor below it.
pub proof fn lemma_floor_bounds(a: int, b: int)
    requires
        a >= 0,
        b > 0,
    ensures
        tdiv(a, b) == a / b,
        0 <= a / b,
        (a / b) * b <= a,
        a < (a / b) * b + b,
{
    vstd::arithmetic::div_mod::lemma_fundamental_div_mod(a, b);
    vstd::arithmetic::div_mod::lemma_mod_pos_bound(a, b);
    assert(b * (a / b) == (a / b) * b) by (nonlinear_arith);
    assert(0 <= a / b) by (nonlinear_arith)
        requires
            a >= 0,
            b > 0,
    ;
}

} // verus!
