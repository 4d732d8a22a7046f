//! Fixed-point decimals of two precisions.
//!
//! Both types hold a signed count of subunits in two's complement limbs and
//! are seen by the verifier as that count, an `int`. The arithmetic itself is
//! done by the `scrypto` decimals; each private function below that calls
//! them states what the call returns and is believed without proof.
//!
//! Sums and differences are taken in the type itself and reach every value
//! of it. Products, quotients and truncations are taken in a wider integer
//! and brought back by their magnitude, which must be below `2^191` for a
//! [`Decimal`] and below `2^255` for a [`PreciseDecimal`]: the smallest value
//! of the type is held by the type, but never comes out of these.

use vstd::prelude::*;

verus! {

/// Whether `x` is a subunit count that a [`Decimal`] can hold.
pub open spec fn fits_i192(x: int) -> bool {
    -0x8000_0000_0000_0000_0000_0000_0000_0000_0000_0000_0000_0000int <= x
        < 0x8000_0000_0000_0000_0000_0000_0000_0000_0000_0000_0000_0000int
}

/// Whether `x` is a subunit count that a [`PreciseDecimal`] can hold.
pub open spec fn fits_i256(x: int) -> bool {
    -0x8000_0000_0000_0000_0000_0000_0000_0000_0000_0000_0000_0000_0000_0000_0000_0000int <= x
        < 0x8000_0000_0000_0000_0000_0000_0000_0000_0000_0000_0000_0000_0000_0000_0000_0000int
}

/// Whether `x` is a subunit count that comes back from a wider integer as
/// a [`Decimal`]: its magnitude is below `2^191`. This is every count that
/// fits but the smallest.
pub open spec fn narrows_to_i192(x: int) -> bool {
    -0x8000_0000_0000_0000_0000_0000_0000_0000_0000_0000_0000_0000int < x
        < 0x8000_0000_0000_0000_0000_0000_0000_0000_0000_0000_0000_0000int
}

/// Whether `x` is a subunit count that comes back from a wider integer as
/// a [`PreciseDecimal`]: its magnitude is below `2^255`. This is every count
/// that fits but the smallest.
pub open spec fn narrows_to_i256(x: int) -> bool {
    -0x8000_0000_0000_0000_0000_0000_0000_0000_0000_0000_0000_0000_0000_0000_0000_0000int < x
        < 0x8000_0000_0000_0000_0000_0000_0000_0000_0000_0000_0000_0000_0000_0000_0000_0000int
}

/// The number of [`PreciseDecimal`] subunits in one [`Decimal`] subunit.
pub open spec fn precise_per_subunit() -> int {
    1_000_000_000_000_000_000int
}

/// The signed integer that three 64-bit limbs hold in two's complement,
/// least significant limb first.
pub open spec fn limbs3_value(d0: u64, d1: u64, d2: u64) -> int {
    d0 as int + (d1 as int) * 0x1_0000_0000_0000_0000int + (d2 as int)
        * 0x1_0000_0000_0000_0000_0000_0000_0000_0000int - if d2 >= 0x8000_0000_0000_0000u64 {
        0x1_0000_0000_0000_0000_0000_0000_0000_0000_0000_0000_0000_0000int
    } else {
        0int
    }
}

/// The signed integer that four 64-bit limbs hold in two's complement,
/// least significant limb first.
pub open spec fn limbs4_value(d0: u64, d1: u64, d2: u64, d3: u64) -> int {
    d0 as int + (d1 as int) * 0x1_0000_0000_0000_0000int + (d2 as int)
        * 0x1_0000_0000_0000_0000_0000_0000_0000_0000int + (d3 as int)
        * 0x1_0000_0000_0000_0000_0000_0000_0000_0000_0000_0000_0000_0000int
        - if d3 >= 0x8000_0000_0000_0000u64 {
        0x1_0000_0000_0000_0000_0000_0000_0000_0000_0000_0000_0000_0000_0000_0000_0000_0000int
    } else {
        0int
    }
}

/// Integer division that rounds toward zero, for a positive divisor.
pub open spec fn trunc_div(a: int, n: int) -> int
    recommends
        n > 0,
{
    if a >= 0 {
        a / n
    } else {
        -((-a) / n)
    }
}

/// The sum of two subunit counts, where a [`Decimal`] can hold it.
pub open spec fn decimal_sum(a: int, b: int) -> Option<int> {
    if fits_i192(a + b) {
        Some(a + b)
    } else {
        None
    }
}

/// The difference of two subunit counts, where a [`Decimal`] can hold it.
pub open spec fn decimal_difference(a: int, b: int) -> Option<int> {
    if fits_i192(a - b) {
        Some(a - b)
    } else {
        None
    }
}

/// A subunit count times a whole number, where the product comes back as a
/// [`Decimal`].
pub open spec fn decimal_product(a: int, n: int) -> Option<int> {
    if narrows_to_i192(a * n) {
        Some(a * n)
    } else {
        None
    }
}

/// A subunit count divided by a whole number, rounded toward zero, where
/// the quotient comes back as a [`Decimal`]; nothing where the divisor is
/// zero.
pub open spec fn decimal_quotient(a: int, n: int) -> Option<int> {
    if n > 0 && narrows_to_i192(trunc_div(a, n)) {
        Some(trunc_div(a, n))
    } else {
        None
    }
}

/// The sum of two subunit counts, where a [`PreciseDecimal`] can hold it.
pub open spec fn precise_sum(a: int, b: int) -> Option<int> {
    if fits_i256(a + b) {
        Some(a + b)
    } else {
        None
    }
}

/// A subunit count times a whole number, where the product comes back as a
/// [`PreciseDecimal`].
pub open spec fn precise_product(a: int, n: int) -> Option<int> {
    if narrows_to_i256(a * n) {
        Some(a * n)
    } else {
        None
    }
}

/// A subunit count divided by a whole number, rounded toward zero, where
/// the quotient comes back as a [`PreciseDecimal`]; nothing where the
/// divisor is zero.
pub open spec fn precise_quotient(a: int, n: int) -> Option<int> {
    if n > 0 && narrows_to_i256(trunc_div(a, n)) {
        Some(trunc_div(a, n))
    } else {
        None
    }
}

/// A [`PreciseDecimal`] subunit count brought to [`Decimal`] subunits,
/// rounded toward negative infinity, where the result comes back as a
/// [`Decimal`].
pub open spec fn floored(p: int) -> Option<int> {
    if narrows_to_i192(p / precise_per_subunit()) {
        Some(p / precise_per_subunit())
    } else {
        None
    }
}

/// Whether an optional decimal holds exactly the optional subunit count.
pub open spec fn holds(r: Option<Decimal>, v: Option<int>) -> bool {
    match (r, v) {
        (Some(d), Some(x)) => d@ == x,
        (None, None) => true,
        _ => false,
    }
}

/// Whether an optional precise decimal holds exactly the optional subunit
/// count.
pub open spec fn precise_holds(r: Option<PreciseDecimal>, v: Option<int>) -> bool {
    match (r, v) {
        (Some(d), Some(x)) => d@ == x,
        (None, None) => true,
        _ => false,
    }
}

/// A fixed-point number with 18 decimal places: a 192-bit signed count of
/// `10^-18` subunits. Its view is that count.
#[derive(Clone, Copy, Debug, PartialEq, Eq)]
pub struct Decimal {
    d0: u64,
    d1: u64,
    d2: u64,
}

impl View for Decimal {
    type V = int;

    closed spec fn view(&self) -> int {
        limbs3_value(self.d0, self.d1, self.d2)
    }
}

impl Decimal {
    /// The decimal 0.
    pub fn zero() -> (r: Decimal)
        ensures
            r@ == 0,
    {
        Decimal { d0: 0, d1: 0, d2: 0 }
    }

    /// The decimal whose subunit count is held by the three limbs, least
    /// significant first, in two's complement.
    pub fn from_limbs(d0: u64, d1: u64, d2: u64) -> (r: Decimal)
        ensures
            r@ == limbs3_value(d0, d1, d2),
            r.limbs() == (d0, d1, d2),
    {
        Decimal { d0, d1, d2 }
    }

    /// The three limbs of the subunit count, least significant first.
    pub closed spec fn limbs(&self) -> (u64, u64, u64) {
        (self.d0, self.d1, self.d2)
    }

    /// The three limbs of the subunit count, least significant first.
    pub fn to_limbs(&self) -> (r: (u64, u64, u64))
        ensures
            r == self.limbs(),
            self@ == limbs3_value(r.0, r.1, r.2),
    {
        (self.d0, self.d1, self.d2)
    }

    /// Every decimal holds a count within the 192-bit range, and two
    /// decimals with the same count are the same decimal.
    pub proof fn lemma_view(self, other: Decimal)
        ensures
            fits_i192(self@),
            self@ == other@ ==> self == other,
    {
    }
}

/// A fixed-point number with 36 decimal places: a 256-bit signed count of
/// `10^-36` subunits. Its view is that count.
#[derive(Clone, Copy, Debug, PartialEq, Eq)]
pub struct PreciseDecimal {
    d0: u64,
    d1: u64,
    d2: u64,
    d3: u64,
}

impl View for PreciseDecimal {
    type V = int;

    closed spec fn view(&self) -> int {
        limbs4_value(self.d0, self.d1, self.d2, self.d3)
    }
}

impl PreciseDecimal {
    /// The precise decimal 0.
    pub fn zero() -> (r: PreciseDecimal)
        ensures
            r@ == 0,
    {
        PreciseDecimal { d0: 0, d1: 0, d2: 0, d3: 0 }
    }

    /// The precise decimal whose subunit count is held by the four limbs,
    /// least significant first, in two's complement.
    pub fn from_limbs(d0: u64, d1: u64, d2: u64, d3: u64) -> (r: PreciseDecimal)
        ensures
            r@ == limbs4_value(d0, d1, d2, d3),
            r.limbs() == (d0, d1, d2, d3),
    {
        PreciseDecimal { d0, d1, d2, d3 }
    }

    /// The four limbs of the subunit count, least significant first.
    pub closed spec fn limbs(&self) -> (u64, u64, u64, u64) {
        (self.d0, self.d1, self.d2, self.d3)
    }

    /// The four limbs of the subunit count, least significant first.
    pub fn to_limbs(&self) -> (r: (u64, u64, u64, u64))
        ensures
            r == self.limbs(),
            self@ == limbs4_value(r.0, r.1, r.2, r.3),
    {
        (self.d0, self.d1, self.d2, self.d3)
    }

    /// Every precise decimal holds a count within the 256-bit range, and two
    /// precise decimals with the same count are the same.
    pub proof fn lemma_view(self, other: PreciseDecimal)
        ensures
            fits_i256(self@),
            self@ == other@ ==> self == other,
    {
    }
}

/// `Decimal::checked_add` of `scrypto`: adds the two 192-bit subunit counts
/// exactly and gives nothing where the sum leaves the 192-bit range.
#[verifier::external_body]
pub(crate) fn decimal_add(a: Decimal, b: Decimal) -> (r: Option<Decimal>)
    ensures
        holds(r, decimal_sum(a@, b@)),
{
    let x = scrypto::math::Decimal::from_attos(scrypto::math::I192::from_digits([a.d0, a.d1, a.d2]));
    let y = scrypto::math::Decimal::from_attos(scrypto::math::I192::from_digits([b.d0, b.d1, b.d2]));
    match scrypto::math::CheckedAdd::checked_add(x, y) {
        Some(v) => {
            let d = v.attos().to_digits();
            Some(Decimal { d0: d[0], d1: d[1], d2: d[2] })
        },
        None => None,
    }
}

/// `Decimal::checked_sub` of `scrypto`: subtracts the two 192-bit subunit
/// counts exactly and gives nothing where the difference leaves the 192-bit
/// range.
#[verifier::external_body]
pub(crate) fn decimal_sub(a: Decimal, b: Decimal) -> (r: Option<Decimal>)
    ensures
        holds(r, decimal_difference(a@, b@)),
{
    let x = scrypto::math::Decimal::from_attos(scrypto::math::I192::from_digits([a.d0, a.d1, a.d2]));
    let y = scrypto::math::Decimal::from_attos(scrypto::math::I192::from_digits([b.d0, b.d1, b.d2]));
    match scrypto::math::CheckedSub::checked_sub(x, y) {
        Some(v) => {
            let d = v.attos().to_digits();
            Some(Decimal { d0: d[0], d1: d[1], d2: d[2] })
        },
        None => None,
    }
}

/// `Decimal::checked_mul` of `scrypto` with a `u64` factor. The factor is
/// first made a decimal (`n * 10^18` subunits, which always fits); the
/// product of the two counts is taken in 256 bits and divided by `10^18`,
/// which is exact here, and brought back to 192 bits by its magnitude. The
/// result is the count times `n`, or nothing where the magnitude of that is
/// `2^191` or more: the smallest 192-bit count is not given.
#[verifier::external_body]
pub(crate) fn decimal_mul_u64(a: Decimal, n: u64) -> (r: Option<Decimal>)
    ensures
        holds(r, decimal_product(a@, n as int)),
{
    let x = scrypto::math::Decimal::from_attos(scrypto::math::I192::from_digits([a.d0, a.d1, a.d2]));
    match scrypto::math::CheckedMul::checked_mul(x, n) {
        Some(v) => {
            let d = v.attos().to_digits();
            Some(Decimal { d0: d[0], d1: d[1], d2: d[2] })
        },
        None => None,
    }
}

/// `Decimal::checked_div` of `scrypto` with a `u64` divisor. The divisor is
/// first made a decimal (`n * 10^18` subunits); the count is multiplied by
/// `10^18` in 256 bits, which always fits, divided by the divisor's count
/// with rounding toward zero, and brought back to 192 bits by its
/// magnitude. The result is the count divided by `n`, rounded toward zero,
/// or nothing where `n` is zero or the magnitude of the quotient is `2^191`,
/// which is the smallest count divided by one.
#[verifier::external_body]
pub(crate) fn decimal_div_u64(a: Decimal, n: u64) -> (r: Option<Decimal>)
    ensures
        holds(r, decimal_quotient(a@, n as int)),
{
    let x = scrypto::math::Decimal::from_attos(scrypto::math::I192::from_digits([a.d0, a.d1, a.d2]));
    match scrypto::math::CheckedDiv::checked_div(x, n) {
        Some(v) => {
            let d = v.attos().to_digits();
            Some(Decimal { d0: d[0], d1: d[1], d2: d[2] })
        },
        None => None,
    }
}

/// `PreciseDecimal::checked_add` of `scrypto`: adds the two 256-bit subunit
/// counts exactly and gives nothing where the sum leaves the 256-bit range.
#[verifier::external_body]
pub(crate) fn precise_add(a: PreciseDecimal, b: PreciseDecimal) -> (r: Option<PreciseDecimal>)
    ensures
        precise_holds(r, precise_sum(a@, b@)),
{
    let x = scrypto::math::PreciseDecimal::from_precise_subunits(
        scrypto::math::I256::from_digits([a.d0, a.d1, a.d2, a.d3]),
    );
    let y = scrypto::math::PreciseDecimal::from_precise_subunits(
        scrypto::math::I256::from_digits([b.d0, b.d1, b.d2, b.d3]),
    );
    match scrypto::math::CheckedAdd::checked_add(x, y) {
        Some(v) => {
            let d = v.precise_subunits().to_digits();
            Some(PreciseDecimal { d0: d[0], d1: d[1], d2: d[2], d3: d[3] })
        },
        None => None,
    }
}

/// `PreciseDecimal::checked_mul` of `scrypto` with a `u64` factor. The
/// factor is first made a precise decimal (`n * 10^36` subunits, which
/// always fits); the product of the two counts is taken in 384 bits and
/// divided by `10^36`, which is exact here, and brought back to 256 bits by
/// its magnitude. The result is the count times `n`, or nothing where the
/// magnitude of that is `2^255` or more: the smallest 256-bit count is not
/// given.
#[verifier::external_body]
pub(crate) fn precise_mul_u64(a: PreciseDecimal, n: u64) -> (r: Option<PreciseDecimal>)
    ensures
        precise_holds(r, precise_product(a@, n as int)),
{
    let x = scrypto::math::PreciseDecimal::from_precise_subunits(
        scrypto::math::I256::from_digits([a.d0, a.d1, a.d2, a.d3]),
    );
    match scrypto::math::CheckedMul::checked_mul(x, n) {
        Some(v) => {
            let d = v.precise_subunits().to_digits();
            Some(PreciseDecimal { d0: d[0], d1: d[1], d2: d[2], d3: d[3] })
        },
        None => None,
    }
}

/// `PreciseDecimal::checked_div` of `scrypto` with a `u64` divisor. The
/// divisor is first made a precise decimal (`n * 10^36` subunits); the count
/// is multiplied by `10^36` in 384 bits, which always fits, divided by the
/// divisor's count with rounding toward zero, and brought back to 256 bits
/// by its magnitude. The result is the count divided by `n`, rounded toward
/// zero, or nothing where `n` is zero or the magnitude of the quotient is
/// `2^255`, which is the smallest count divided by one.
#[verifier::external_body]
pub(crate) fn precise_div_u64(a: PreciseDecimal, n: u64) -> (r: Option<PreciseDecimal>)
    ensures
        precise_holds(r, precise_quotient(a@, n as int)),
{
    let x = scrypto::math::PreciseDecimal::from_precise_subunits(
        scrypto::math::I256::from_digits([a.d0, a.d1, a.d2, a.d3]),
    );
    match scrypto::math::CheckedDiv::checked_div(x, n) {
        Some(v) => {
            let d = v.precise_subunits().to_digits();
            Some(PreciseDecimal { d0: d[0], d1: d[1], d2: d[2], d3: d[3] })
        },
        None => None,
    }
}

/// `PreciseDecimal::checked_truncate` of `scrypto` with the rounding mode
/// `ToNegativeInfinity`: the count is rounded down to a multiple of `10^18`,
/// divided by `10^18`, which is the floor of the count over `10^18`, and
/// brought from 256 to 192 bits by its magnitude. It gives nothing where the
/// magnitude of that floor is `2^191` or more: the smallest 192-bit count is
/// not given.
#[verifier::external_body]
pub(crate) fn precise_floor(a: PreciseDecimal) -> (r: Option<Decimal>)
    ensures
        holds(r, floored(a@)),
{
    let x = scrypto::math::PreciseDecimal::from_precise_subunits(
        scrypto::math::I256::from_digits([a.d0, a.d1, a.d2, a.d3]),
    );
    let mode = scrypto::math::RoundingMode::ToNegativeInfinity;
    match scrypto::math::CheckedTruncate::checked_truncate(x, mode) {
        Some(v) => {
            let d = v.attos().to_digits();
            Some(Decimal { d0: d[0], d1: d[1], d2: d[2] })
        },
        None => None,
    }
}

} // verus!
