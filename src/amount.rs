use rust_decimal::Decimal;
use vstd::prelude::*;

verus! {

/// Largest magnitude of a decimal's mantissa (96 bits).
pub const MAX_MANTISSA: i128 = 79228162514264337593543950335;

/// Largest number of fractional digits a decimal can carry.
pub const MAX_SCALE: u32 = 28;

/// Fractional digits kept on every amount that the ledger applies.
pub const DECIMAL_PLACES: u32 = 4;

/// Ledger units in one whole currency unit: balances count ten-thousandths.
pub const UNITS_PER_WHOLE: i128 = 10000;

/// Largest magnitude of an amount in ledger units: `MAX_MANTISSA` whole units.
pub const MAX_UNITS: i128 = 792281625142643375935439503350000;

/// The number `mantissa * 10^-scale`, as a pair of mathematical integers.
pub struct DecimalModel {
    pub mantissa: int,
    pub scale: nat,
}

pub open spec fn pow10(n: nat) -> nat
    decreases n,
{
    if n == 0 {
        1
    } else {
        10 * pow10((n - 1) as nat)
    }
}

/// `n / d` rounded to the nearest integer, a midpoint going to the even neighbour.
pub open spec fn div_half_even(n: nat, d: nat) -> nat
    recommends
        d > 0,
{
    let q = n / d;
    let r = n % d;
    if 2 * r > d || (2 * r == d && q % 2 == 1) {
        q + 1
    } else {
        q
    }
}

/// `v` rounded to `dp` fractional digits, midpoints to the even neighbour, the sign kept.
/// A value with at most `dp` fractional digits stays as it is, scale included.
pub open spec fn round_model(v: DecimalModel, dp: nat) -> DecimalModel {
    if v.scale <= dp {
        v
    } else {
        let d = pow10((v.scale - dp) as nat);
        let m = if v.mantissa >= 0 {
            div_half_even(v.mantissa as nat, d) as int
        } else {
            -div_half_even((-v.mantissa) as nat, d)
        };
        DecimalModel { mantissa: m, scale: dp }
    }
}

/// The value of `v` in ledger units (ten-thousandths), for `v` with at most four
/// fractional digits.
pub open spec fn units_of(v: DecimalModel) -> int
    recommends
        v.scale <= 4,
{
    v.mantissa * pow10((4 - v.scale) as nat)
}

pub proof fn lemma_pow10_positive(n: nat)
    ensures
        pow10(n) >= 1,
    decreases n,
{
    if n > 0 {
        lemma_pow10_positive((n - 1) as nat);
    }
}

/// Rounding by a divisor of at least two never grows the magnitude.
proof fn lemma_div_half_even_le(n: nat, d: nat)
    requires
        d >= 2,
    ensures
        div_half_even(n, d) <= n,
{
    let q = n / d;
    let r = n % d;
    vstd::arithmetic::div_mod::lemma_fundamental_div_mod(n as int, d as int);
    assert(q * d >= 2 * q) by (nonlinear_arith)
        requires
            d >= 2,
            q >= 0,
    ;
    if 2 * r > d || (2 * r == d && q % 2 == 1) {
        assert(r >= 1);
    }
}

/// An amount of at most four fractional digits is at most `MAX_UNITS` ledger units either way.
pub proof fn lemma_units_bound(v: DecimalModel)
    requires
        Amount::representable(v),
        v.scale <= DECIMAL_PLACES,
    ensures
        -MAX_UNITS <= units_of(v) <= MAX_UNITS,
{
    reveal_with_fuel(pow10, 5);
    let f = pow10((4 - v.scale) as nat);
    assert(1 <= f <= 10000) by {
        if v.scale == 0 {
            assert(f == 10000);
        } else if v.scale == 1 {
            assert(f == 1000);
        } else if v.scale == 2 {
            assert(f == 100);
        } else if v.scale == 3 {
            assert(f == 10);
        } else {
            assert(f == 1);
        }
    }
    assert(-MAX_UNITS <= v.mantissa * f <= MAX_UNITS) by (nonlinear_arith)
        requires
            -MAX_MANTISSA <= v.mantissa <= MAX_MANTISSA,
            1 <= f <= 10000,
    ;
}

/// A decimal number: `mantissa * 10^-scale`, with a 96-bit mantissa and at most
/// 28 fractional digits, as in `rust_decimal::Decimal`.
#[derive(Clone, Copy, Debug, PartialEq, Eq, Structural)]
pub struct Amount {
    mantissa: i128,
    scale: u32,
}

impl View for Amount {
    type V = DecimalModel;

    closed spec fn view(&self) -> DecimalModel {
        DecimalModel { mantissa: self.mantissa as int, scale: self.scale as nat }
    }
}

/// Relies on `rust_decimal::Decimal::round_dp`: it rounds to `dp` fractional digits with
/// midpoints to the even neighbour, keeps the sign, and returns a value with at most `dp`
/// fractional digits unchanged. `from_i128_with_scale`, `mantissa` and `scale` only convert.
#[verifier::external_body]
fn decimal_round_dp(mantissa: i128, scale: u32, dp: u32) -> (r: (i128, u32))
    requires
        -MAX_MANTISSA <= mantissa <= MAX_MANTISSA,
        scale <= MAX_SCALE,
    ensures
        (DecimalModel { mantissa: r.0 as int, scale: r.1 as nat }) == round_model(
            DecimalModel { mantissa: mantissa as int, scale: scale as nat },
            dp as nat,
        ),
{
    let rounded = Decimal::from_i128_with_scale(mantissa, scale).round_dp(dp);
    (rounded.mantissa(), rounded.scale())
}

impl Amount {
    #[verifier::type_invariant]
    spec fn inv(self) -> bool {
        -MAX_MANTISSA <= self.mantissa <= MAX_MANTISSA && self.scale <= MAX_SCALE
    }

    /// The values that an `Amount` can hold.
    pub open spec fn representable(v: DecimalModel) -> bool {
        -MAX_MANTISSA <= v.mantissa <= MAX_MANTISSA && v.scale <= MAX_SCALE
    }

    /// This amount rounded to `dp` fractional digits.
    pub closed spec fn rounded(self, dp: nat) -> Amount {
        let v = round_model(self@, dp);
        Amount { mantissa: v.mantissa as i128, scale: v.scale as u32 }
    }

    /// The amount `mantissa * 10^-scale`, where the pair is representable.
    pub fn new(mantissa: i128, scale: u32) -> (r: Option<Amount>)
        ensures
            r is Some <==> Self::representable(
                DecimalModel { mantissa: mantissa as int, scale: scale as nat },
            ),
            r matches Some(a) ==> a@ == (DecimalModel {
                mantissa: mantissa as int,
                scale: scale as nat,
            }),
    {
        if -MAX_MANTISSA <= mantissa && mantissa <= MAX_MANTISSA && scale <= MAX_SCALE {
            Some(Amount { mantissa, scale })
        } else {
            None
        }
    }

    pub fn mantissa(&self) -> (r: i128)
        ensures
            r == self@.mantissa,
            Self::representable(self@),
    {
        proof {
            use_type_invariant(self);
        }
        self.mantissa
    }

    pub fn scale(&self) -> (r: u32)
        ensures
            r == self@.scale,
    {
        self.scale
    }

    pub proof fn lemma_rounded(self, dp: nat)
        requires
            Self::representable(self@),
        ensures
            self.rounded(dp)@ == round_model(self@, dp),
            Self::representable(self.rounded(dp)@),
            self.rounded(dp)@.scale <= dp,
            self.rounded(dp)@.scale <= self@.scale,
    {
        if self.scale > dp {
            let d = pow10((self.scale - dp) as nat);
            assert(d >= 10) by {
                lemma_pow10_positive((self.scale - dp - 1) as nat);
            }
            if self.mantissa >= 0 {
                lemma_div_half_even_le(self.mantissa as nat, d);
            } else {
                lemma_div_half_even_le((-self.mantissa) as nat, d);
            }
        }
    }

    /// Two amounts are the same exactly when their values, mantissa and scale, are.
    pub proof fn lemma_view_injective(self, other: Amount)
        ensures
            self@ == other@ <==> self == other,
    {
    }

    /// Whether the amount is above zero.
    pub fn is_positive(&self) -> (r: bool)
        ensures
            r == (self@.mantissa > 0),
    {
        self.mantissa > 0
    }

    /// This amount rounded to `dp` fractional digits, midpoints to the even neighbour.
    pub fn round_dp(&self, dp: u32) -> (r: Amount)
        ensures
            r == self.rounded(dp as nat),
            r@ == round_model(self@, dp as nat),
            r@.scale <= dp,
            Self::representable(r@),
            self@.scale <= dp ==> r == *self,
    {
        proof {
            use_type_invariant(self);
            self.lemma_rounded(dp as nat);
        }
        let (mantissa, scale) = decimal_round_dp(self.mantissa, self.scale, dp);
        Amount { mantissa, scale }
    }

    /// The amount in ledger units (ten-thousandths), for an amount with at most four
    /// fractional digits.
    pub fn units(&self) -> (r: i128)
        requires
            self@.scale <= DECIMAL_PLACES,
        ensures
            r == units_of(self@),
            -MAX_UNITS <= r <= MAX_UNITS,
    {
        proof {
            use_type_invariant(self);
            reveal_with_fuel(pow10, 5);
            assert(pow10(1) == 10);
            assert(pow10(2) == 100);
            assert(pow10(3) == 1000);
            assert(pow10(4) == 10000);
        }
        let factor: i128 = if self.scale == 0 {
            10000
        } else if self.scale == 1 {
            1000
        } else if self.scale == 2 {
            100
        } else if self.scale == 3 {
            10
        } else {
            1
        };
        assert(-MAX_UNITS <= self.mantissa * factor <= MAX_UNITS) by (nonlinear_arith)
            requires
                -MAX_MANTISSA <= self.mantissa <= MAX_MANTISSA,
                1 <= factor <= 10000,
        ;
        self.mantissa * factor
    }
}

} // verus!
