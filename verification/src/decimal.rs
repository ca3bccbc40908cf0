//! Fixed-point decimal amounts.
//!
//! `Dec` holds the plain parts of a `rust_decimal::Decimal`: a sign flag, a
//! 96-bit magnitude and a scale (the number of digits after the point).
//! The value is `(-1)^negative * magnitude / 10^scale`. The arithmetic itself
//! is done by `rust_decimal`; the contracts below state what it returns on
//! the inputs where no digit is lost, and name its results elsewhere.
use vstd::prelude::*;
use std::str::FromStr;

verus! {

/// One more than the largest magnitude a decimal can hold (2^96).
pub open spec fn magnitude_bound() -> int {
    0x1_0000_0000_0000_0000_0000_0000
}

/// The largest scale a decimal can have.
pub open spec fn max_scale() -> nat {
    28
}

/// 10 to the power `n`.
pub open spec fn pow10(n: nat) -> nat
    decreases n,
{
    if n == 0 {
        1
    } else {
        10 * pow10((n - 1) as nat)
    }
}

pub open spec fn abs(v: int) -> int {
    if v < 0 {
        -v
    } else {
        v
    }
}

#[derive(Debug, Clone, Copy, PartialEq, Eq, Structural)]
pub struct Dec {
    pub negative: bool,
    pub magnitude: u128,
    pub scale: u32,
}

impl Dec {
    /// The parts describe a value that a decimal can hold.
    pub open spec fn wf(self) -> bool {
        &&& self.magnitude < magnitude_bound()
        &&& self.scale <= max_scale()
    }

    /// The signed mantissa.
    pub open spec fn signed(self) -> int {
        if self.negative {
            -(self.magnitude as int)
        } else {
            self.magnitude as int
        }
    }

    /// The signed mantissa brought to scale `s` (at least `self.scale`).
    pub open spec fn at_scale(self, s: nat) -> int {
        self.signed() * pow10((s - self.scale) as nat)
    }

    /// The value counted in units of 10^-28, the finest step a decimal has.
    pub open spec fn units(self) -> int {
        self.at_scale(max_scale())
    }

    /// The value written with the given signed mantissa and scale; the sign
    /// flag is set only for a negative mantissa.
    pub open spec fn from_signed(v: int, scale: nat) -> Dec {
        Dec { negative: v < 0, magnitude: abs(v) as u128, scale: scale as u32 }
    }

    /// Zero with scale 0.
    pub fn zero() -> (res: Dec)
        ensures
            res == (Dec { negative: false, magnitude: 0, scale: 0 }),
            res.wf(),
    {
        Dec { negative: false, magnitude: 0, scale: 0 }
    }

    /// The decimal `mantissa / 10^scale`.
    pub fn new(mantissa: i64, scale: u32) -> (res: Dec)
        requires
            scale <= max_scale(),
        ensures
            res == Dec::from_signed(mantissa as int, scale as nat),
            res.wf(),
    {
        let negative = mantissa < 0;
        let magnitude: u128 = if negative {
            (0i128 - mantissa as i128) as u128
        } else {
            mantissa as u128
        };
        Dec { negative, magnitude, scale }
    }

    /// Whether the sign flag is set (a negative zero has it too).
    pub fn is_sign_negative(&self) -> (res: bool)
        ensures
            res == self.negative,
    {
        self.negative
    }
}

pub open spec fn scale_max(a: Dec, b: Dec) -> nat {
    if a.scale >= b.scale {
        a.scale as nat
    } else {
        b.scale as nat
    }
}

/// The exact sum (or difference) of two decimals as `rust_decimal` forms it:
/// a zero operand gives back the other one (negated for `0 - b`); otherwise
/// both operands are brought to the larger scale.
pub open spec fn exact_add_sub(a: Dec, b: Dec, subtract: bool) -> Dec {
    if a.magnitude == 0 {
        if subtract && b.magnitude != 0 {
            Dec { negative: !b.negative, ..b }
        } else {
            b
        }
    } else if b.magnitude == 0 {
        a
    } else {
        let s = scale_max(a, b);
        let rhs = if subtract { -b.at_scale(s) } else { b.at_scale(s) };
        Dec::from_signed(a.at_scale(s) + rhs, s)
    }
}

/// Bringing both operands to the larger scale, and their sum, lose no digit.
pub open spec fn add_sub_exact(a: Dec, b: Dec, subtract: bool) -> bool {
    a.magnitude == 0 || b.magnitude == 0 || {
        let s = scale_max(a, b);
        let rhs = if subtract { -b.at_scale(s) } else { b.at_scale(s) };
        &&& abs(a.at_scale(s)) < magnitude_bound()
        &&& abs(b.at_scale(s)) < magnitude_bound()
        &&& abs(a.at_scale(s) + rhs) < magnitude_bound()
    }
}

pub open spec fn exact_add(a: Dec, b: Dec) -> Dec {
    exact_add_sub(a, b, false)
}

pub open spec fn exact_sub(a: Dec, b: Dec) -> Dec {
    exact_add_sub(a, b, true)
}

pub open spec fn add_exact(a: Dec, b: Dec) -> bool {
    add_sub_exact(a, b, false)
}

pub open spec fn sub_exact(a: Dec, b: Dec) -> bool {
    add_sub_exact(a, b, true)
}

/// The exact product as `rust_decimal` forms it: zero (scale 0) when an
/// operand is zero, otherwise the product of the mantissas at the sum of the
/// scales.
pub open spec fn exact_mul(a: Dec, b: Dec) -> Dec {
    if a.magnitude == 0 || b.magnitude == 0 {
        Dec { negative: false, magnitude: 0, scale: 0 }
    } else {
        Dec {
            negative: a.negative != b.negative,
            magnitude: (a.magnitude * b.magnitude) as u128,
            scale: (a.scale + b.scale) as u32,
        }
    }
}

/// The product loses no digit.
pub open spec fn mul_exact(a: Dec, b: Dec) -> bool {
    a.magnitude == 0 || b.magnitude == 0 || (a.scale + b.scale <= max_scale() && a.magnitude
        * b.magnitude < magnitude_bound())
}

/// Rounding to `dp` digits after the point, a tie going to the even
/// neighbour ("banker's rounding"). A value with at most `dp` digits is
/// returned as it is.
pub open spec fn spec_round_dp(a: Dec, dp: nat) -> Dec {
    if a.scale <= dp {
        a
    } else if a.magnitude == 0 {
        Dec { negative: a.negative, magnitude: 0, scale: dp as u32 }
    } else {
        let k = (a.scale - dp) as nat;
        let m = a.magnitude as nat;
        let q = m / pow10(k);
        let r = m % pow10(k);
        let half = 5 * pow10((k - 1) as nat);
        let rounded: nat = if r > half || (r == half && q % 2 == 1) {
            q + 1
        } else {
            q
        };
        Dec { negative: a.negative && rounded != 0, magnitude: rounded as u128, scale: dp as u32 }
    }
}

proof fn lemma_pow10_add(m: nat, n: nat)
    ensures
        pow10(m + n) == pow10(m) * pow10(n),
    decreases m,
{
    if m == 0 {
        assert(pow10(m) == 1);
    } else {
        lemma_pow10_add((m - 1) as nat, n);
        assert(pow10(m) == 10 * pow10((m - 1) as nat));
        assert(pow10(m + n) == 10 * pow10((m - 1 + n) as nat));
        assert(10 * (pow10((m - 1) as nat) * pow10(n)) == (10 * pow10((m - 1) as nat)) * pow10(n))
            by (nonlinear_arith);
    }
}

/// A value brought to a finer scale and then counted in units is the value
/// counted in units.
proof fn lemma_units_through(v: int, from: nat, s: nat)
    requires
        from <= s <= max_scale(),
    ensures
        v * pow10((s - from) as nat) * pow10((max_scale() - s) as nat) == v * pow10(
            (max_scale() - from) as nat,
        ),
{
    lemma_pow10_add((s - from) as nat, (max_scale() - s) as nat);
    assert(((s - from) as nat + (max_scale() - s) as nat) as nat == (max_scale() - from) as nat);
    assert(v * pow10((s - from) as nat) * pow10((max_scale() - s) as nat) == v * (pow10(
        (s - from) as nat,
    ) * pow10((max_scale() - s) as nat))) by (nonlinear_arith);
}

/// Addition keeps value: where the sum (or difference) is exact, it is
/// worth the sum (or difference) of the operands, counted in units.
pub proof fn lemma_exact_add_sub_units(a: Dec, b: Dec, subtract: bool)
    requires
        a.wf(),
        b.wf(),
        add_sub_exact(a, b, subtract),
    ensures
        exact_add_sub(a, b, subtract).wf(),
        exact_add_sub(a, b, subtract).units() == if subtract {
            a.units() - b.units()
        } else {
            a.units() + b.units()
        },
{
    let r = exact_add_sub(a, b, subtract);
    if a.magnitude == 0 {
        assert(a.signed() == 0);
        assert(a.units() == 0) by (nonlinear_arith)
            requires
                a.units() == a.signed() * pow10((max_scale() - a.scale) as nat),
                a.signed() == 0,
        ;
        if subtract && b.magnitude != 0 {
            assert(r.signed() == -b.signed());
            assert(r.units() == -b.units()) by (nonlinear_arith)
                requires
                    r.units() == r.signed() * pow10((max_scale() - r.scale) as nat),
                    b.units() == b.signed() * pow10((max_scale() - b.scale) as nat),
                    r.signed() == -b.signed(),
                    r.scale == b.scale,
            ;
        } else if subtract {
            assert(b.signed() == 0);
            assert(b.units() == 0) by (nonlinear_arith)
                requires
                    b.units() == b.signed() * pow10((max_scale() - b.scale) as nat),
                    b.signed() == 0,
            ;
        }
    } else if b.magnitude == 0 {
        assert(b.signed() == 0);
        assert(b.units() == 0) by (nonlinear_arith)
            requires
                b.units() == b.signed() * pow10((max_scale() - b.scale) as nat),
                b.signed() == 0,
        ;
    } else {
        let s = scale_max(a, b);
        let rhs = if subtract { -b.at_scale(s) } else { b.at_scale(s) };
        let v = a.at_scale(s) + rhs;
        assert(r == Dec::from_signed(v, s));
        assert(r.signed() == v);
        assert(r.scale == s);
        lemma_units_through(a.signed(), a.scale as nat, s);
        lemma_units_through(b.signed(), b.scale as nat, s);
        let p = pow10((max_scale() - s) as nat);
        assert(r.units() == v * p);
        assert(v * p == a.at_scale(s) * p + rhs * p) by (nonlinear_arith)
            requires
                v == a.at_scale(s) + rhs,
        ;
        if subtract {
            assert(rhs * p == -(b.at_scale(s) * p)) by (nonlinear_arith)
                requires
                    rhs == -b.at_scale(s),
            ;
        }
    }
}

/// What `rust_decimal::Decimal::from_str_exact` gives for a text.
pub uninterp spec fn decimal_from_str_exact(s: Seq<char>) -> Option<Dec>;

/// What `rust_decimal::Decimal::from_str` gives for a text.
pub uninterp spec fn decimal_from_str(s: Seq<char>) -> Option<Dec>;

/// The text that `rust_decimal::Decimal`'s `Display` writes for a value.
pub uninterp spec fn decimal_display(d: Dec) -> Seq<char>;

/// What `rust_decimal::Decimal::checked_add` gives: the sum, `None` where
/// it overflows (where `+` panics).
pub uninterp spec fn decimal_checked_add(a: Dec, b: Dec) -> Option<Dec>;

/// What `rust_decimal::Decimal::checked_sub` gives: the difference, `None`
/// where it overflows (where `-` panics).
pub uninterp spec fn decimal_checked_sub(a: Dec, b: Dec) -> Option<Dec>;

/// What `rust_decimal::Decimal::checked_mul` gives: the product, `None`
/// where it overflows (where `*` panics).
pub uninterp spec fn decimal_checked_mul(a: Dec, b: Dec) -> Option<Dec>;

/// `a + b` does not overflow.
pub open spec fn add_fits(a: Dec, b: Dec) -> bool {
    decimal_checked_add(a, b) is Some
}

/// `a - b` does not overflow.
pub open spec fn sub_fits(a: Dec, b: Dec) -> bool {
    decimal_checked_sub(a, b) is Some
}

/// `a * b` does not overflow.
pub open spec fn mul_fits(a: Dec, b: Dec) -> bool {
    decimal_checked_mul(a, b) is Some
}

/// `a + b` as `rust_decimal` computes it (rounded where the exact sum does
/// not fit; see `exact_add` for where it does).
pub open spec fn spec_add(a: Dec, b: Dec) -> Dec {
    decimal_checked_add(a, b)->Some_0
}

/// `a - b` as `rust_decimal` computes it.
pub open spec fn spec_sub(a: Dec, b: Dec) -> Dec {
    decimal_checked_sub(a, b)->Some_0
}

/// `a * b` as `rust_decimal` computes it.
pub open spec fn spec_mul(a: Dec, b: Dec) -> Dec {
    decimal_checked_mul(a, b)->Some_0
}

/// `rust_decimal::Decimal::checked_add`. Claimed: the result is
/// `decimal_checked_add` of the operands, a decimal the crate can hold; where
/// the operands brought to the larger scale and their sum fit in 96 bits, it
/// is the exact sum as `exact_add` writes it.
#[verifier::external_body]
pub(crate) fn dec_checked_add(a: Dec, b: Dec) -> (res: Option<Dec>)
    requires
        a.wf(),
        b.wf(),
    ensures
        res == decimal_checked_add(a, b),
        res matches Some(r) ==> r.wf(),
        add_exact(a, b) ==> res == Some(exact_add(a, b)),
{
    let mut x = rust_decimal::Decimal::from_i128_with_scale(a.magnitude as i128, a.scale);
    x.set_sign_negative(a.negative);
    let mut y = rust_decimal::Decimal::from_i128_with_scale(b.magnitude as i128, b.scale);
    y.set_sign_negative(b.negative);
    match x.checked_add(y) {
        Some(r) => Some(Dec { negative: r.is_sign_negative(), magnitude: r.mantissa().unsigned_abs(), scale: r.scale() }),
        None => None,
    }
}

/// `rust_decimal::Decimal::checked_sub`. Claimed: the result is
/// `decimal_checked_sub` of the operands, a decimal the crate can hold; where
/// the operands brought to the larger scale and their difference fit in 96
/// bits, it is the exact difference as `exact_sub` writes it.
#[verifier::external_body]
pub(crate) fn dec_checked_sub(a: Dec, b: Dec) -> (res: Option<Dec>)
    requires
        a.wf(),
        b.wf(),
    ensures
        res == decimal_checked_sub(a, b),
        res matches Some(r) ==> r.wf(),
        sub_exact(a, b) ==> res == Some(exact_sub(a, b)),
{
    let mut x = rust_decimal::Decimal::from_i128_with_scale(a.magnitude as i128, a.scale);
    x.set_sign_negative(a.negative);
    let mut y = rust_decimal::Decimal::from_i128_with_scale(b.magnitude as i128, b.scale);
    y.set_sign_negative(b.negative);
    match x.checked_sub(y) {
        Some(r) => Some(Dec { negative: r.is_sign_negative(), magnitude: r.mantissa().unsigned_abs(), scale: r.scale() }),
        None => None,
    }
}

/// `rust_decimal::Decimal::checked_mul`. Claimed: the result is
/// `decimal_checked_mul` of the operands, a decimal the crate can hold; when
/// an operand is zero it is zero with scale 0, and where the scales add up to
/// at most 28 and the product of the mantissas fits in 96 bits it is that
/// product at the summed scale (`exact_mul`).
#[verifier::external_body]
pub(crate) fn dec_checked_mul(a: Dec, b: Dec) -> (res: Option<Dec>)
    requires
        a.wf(),
        b.wf(),
    ensures
        res == decimal_checked_mul(a, b),
        res matches Some(r) ==> r.wf(),
        mul_exact(a, b) ==> res == Some(exact_mul(a, b)),
{
    let mut x = rust_decimal::Decimal::from_i128_with_scale(a.magnitude as i128, a.scale);
    x.set_sign_negative(a.negative);
    let mut y = rust_decimal::Decimal::from_i128_with_scale(b.magnitude as i128, b.scale);
    y.set_sign_negative(b.negative);
    match x.checked_mul(y) {
        Some(r) => Some(Dec { negative: r.is_sign_negative(), magnitude: r.mantissa().unsigned_abs(), scale: r.scale() }),
        None => None,
    }
}

/// `a + b`; it may not overflow (`add_fits`). Where the sum is exact it is
/// `exact_add`.
pub fn dec_add(a: Dec, b: Dec) -> (res: Dec)
    requires
        a.wf(),
        b.wf(),
        add_fits(a, b),
    ensures
        res == spec_add(a, b),
        res.wf(),
        add_exact(a, b) ==> res == exact_add(a, b),
{
    dec_checked_add(a, b).unwrap()
}

/// `a - b`; it may not overflow (`sub_fits`). Where the difference is exact
/// it is `exact_sub`.
pub fn dec_sub(a: Dec, b: Dec) -> (res: Dec)
    requires
        a.wf(),
        b.wf(),
        sub_fits(a, b),
    ensures
        res == spec_sub(a, b),
        res.wf(),
        sub_exact(a, b) ==> res == exact_sub(a, b),
{
    dec_checked_sub(a, b).unwrap()
}

/// `a * b`; it may not overflow (`mul_fits`). Where the product is exact it
/// is `exact_mul`.
pub fn dec_mul(a: Dec, b: Dec) -> (res: Dec)
    requires
        a.wf(),
        b.wf(),
        mul_fits(a, b),
    ensures
        res == spec_mul(a, b),
        res.wf(),
        mul_exact(a, b) ==> res == exact_mul(a, b),
{
    dec_checked_mul(a, b).unwrap()
}

/// Whether `a + b` (or, for `subtract`, `a - b`) does not overflow.
pub fn add_sub_fits_check(a: Dec, b: Dec, subtract: bool) -> (res: bool)
    requires
        a.wf(),
        b.wf(),
    ensures
        res == if subtract {
            sub_fits(a, b)
        } else {
            add_fits(a, b)
        },
{
    if subtract {
        dec_checked_sub(a, b).is_some()
    } else {
        dec_checked_add(a, b).is_some()
    }
}

/// Whether `a * b` does not overflow.
pub fn mul_fits_check(a: Dec, b: Dec) -> (res: bool)
    requires
        a.wf(),
        b.wf(),
    ensures
        res == mul_fits(a, b),
{
    dec_checked_mul(a, b).is_some()
}

/// `rust_decimal::Decimal::round_dp`: rounding to `dp` digits after the point
/// with ties to even, as `spec_round_dp` writes it (the crate's source keeps a
/// value with fewer digits unchanged and clears the sign of a rounded zero).
#[verifier::external_body]
pub(crate) fn round_dp(a: Dec, dp: u32) -> (res: Dec)
    requires
        a.wf(),
    ensures
        res == spec_round_dp(a, dp as nat),
        res.wf(),
{
    let mut x = rust_decimal::Decimal::from_i128_with_scale(a.magnitude as i128, a.scale);
    x.set_sign_negative(a.negative);
    let r = x.round_dp(dp);
    Dec { negative: r.is_sign_negative(), magnitude: r.mantissa().unsigned_abs(), scale: r.scale() }
}

/// `rust_decimal::Decimal::from_str_exact`: the text read as a decimal
/// (`None` where the crate returns an error). Claimed: the result is
/// `decimal_from_str_exact` of the text, and a decimal the crate can hold.
#[verifier::external_body]
pub(crate) fn parse_exact(s: &str) -> (res: Option<Dec>)
    ensures
        res == decimal_from_str_exact(s@),
        res matches Some(d) ==> d.wf(),
{
    match rust_decimal::Decimal::from_str_exact(s) {
        Ok(r) => Some(
            Dec { negative: r.is_sign_negative(), magnitude: r.mantissa().unsigned_abs(), scale: r.scale() },
        ),
        Err(_) => None,
    }
}

/// `rust_decimal::Decimal::from_str`: the text read as a decimal (`None`
/// where the crate returns an error). Claimed: the result is
/// `decimal_from_str` of the text, and a decimal the crate can hold.
#[verifier::external_body]
pub(crate) fn parse(s: &str) -> (res: Option<Dec>)
    ensures
        res == decimal_from_str(s@),
        res matches Some(d) ==> d.wf(),
{
    match rust_decimal::Decimal::from_str(s) {
        Ok(r) => Some(
            Dec { negative: r.is_sign_negative(), magnitude: r.mantissa().unsigned_abs(), scale: r.scale() },
        ),
        Err(_) => None,
    }
}

/// `rust_decimal::Decimal`'s `Display`: the text of a value. Claimed: the
/// result is `decimal_display` of the value.
#[verifier::external_body]
pub(crate) fn display(a: Dec) -> (res: String)
    requires
        a.wf(),
    ensures
        res@ == decimal_display(a),
{
    let mut x = rust_decimal::Decimal::from_i128_with_scale(a.magnitude as i128, a.scale);
    x.set_sign_negative(a.negative);
    x.to_string()
}

} // verus!
