//! Amounts of wei: unsigned numbers of 256 bits.

use vstd::prelude::*;

use crate::text::decimal;

verus! {

/// An unsigned number of 256 bits, least significant limb first.
#[derive(Clone, Copy, Debug, PartialEq, Eq)]
pub struct U256 {
    /// The four limbs of 64 bits.
    pub limbs: [u64; 4],
}

/// The number of values of a `U256`: `2^256`.
pub open spec fn modulus() -> nat {
    0x1_0000_0000_0000_0000_0000_0000_0000_0000_0000_0000_0000_0000_0000_0000_0000_0000nat
}

/// The number that four limbs denote.
pub open spec fn limbs_value(limbs: Seq<u64>) -> nat {
    (limbs[0] + limbs[1] * 0x1_0000_0000_0000_0000 + limbs[2]
        * 0x1_0000_0000_0000_0000_0000_0000_0000_0000 + limbs[3]
        * 0x1_0000_0000_0000_0000_0000_0000_0000_0000_0000_0000_0000_0000) as nat
}

impl View for U256 {
    type V = nat;

    open spec fn view(&self) -> nat {
        limbs_value(self.limbs@)
    }
}

/// The number that bytes denote, most significant first.
pub open spec fn be_value(bytes: Seq<u8>) -> nat
    decreases bytes.len(),
{
    if bytes.len() == 0 {
        0
    } else {
        be_value(bytes.drop_last()) * 256 + bytes.last() as nat
    }
}

/// The amount of a number of 128 bits.
pub open spec fn small_amount(n: u128) -> U256 {
    U256 {
        limbs: [
            (n % 0x1_0000_0000_0000_0000) as u64,
            (n / 0x1_0000_0000_0000_0000) as u64,
            0,
            0,
        ],
    }
}

impl U256 {
    /// The amount of a number of 128 bits.
    pub fn new(n: u128) -> (r: U256)
        ensures
            r@ == n as nat,
            r == small_amount(n),
    {
        U256 {
            limbs: [
                (n % 0x1_0000_0000_0000_0000) as u64,
                (n / 0x1_0000_0000_0000_0000) as u64,
                0,
                0,
            ],
        }
    }
}

impl From<u128> for U256 {
    fn from(n: u128) -> (r: U256) {
        U256::new(n)
    }
}

impl vstd::std_specs::convert::FromSpecImpl<u128> for U256 {
    open spec fn obeys_from_spec() -> bool {
        true
    }

    open spec fn from_spec(n: u128) -> U256 {
        small_amount(n)
    }
}

/// Calls ruint's `Uint::checked_mul`: the product, and nothing where it takes more than 256 bits.
#[verifier::external_body]
pub(crate) fn checked_mul(a: U256, b: U256) -> (r: Option<U256>)
    ensures
        a@ * b@ < modulus() ==> (r is Some && r->0@ == a@ * b@),
        a@ * b@ >= modulus() ==> r is None,
{
    alloy_primitives::U256::from_limbs(a.limbs)
        .checked_mul(alloy_primitives::U256::from_limbs(b.limbs))
        .map(|product| U256 { limbs: product.into_limbs() })
}

/// Calls ruint's `Uint::checked_add`: the sum, and nothing where it takes more than 256 bits.
#[verifier::external_body]
pub(crate) fn checked_add(a: U256, b: U256) -> (r: Option<U256>)
    ensures
        a@ + b@ < modulus() ==> (r is Some && r->0@ == a@ + b@),
        a@ + b@ >= modulus() ==> r is None,
{
    alloy_primitives::U256::from_limbs(a.limbs)
        .checked_add(alloy_primitives::U256::from_limbs(b.limbs))
        .map(|total| U256 { limbs: total.into_limbs() })
}

/// Calls ruint's `*` on amounts: the product without what goes beyond 256 bits.
#[verifier::external_body]
pub(crate) fn times(a: U256, b: U256) -> (r: U256)
    ensures
        r@ == (a@ * b@) % modulus(),
{
    let product = alloy_primitives::U256::from_limbs(a.limbs)
        * alloy_primitives::U256::from_limbs(b.limbs);
    U256 { limbs: product.into_limbs() }
}

/// Calls ruint's `+` on amounts: the sum without what goes beyond 256 bits.
#[verifier::external_body]
pub(crate) fn plus(a: U256, b: U256) -> (r: U256)
    ensures
        r@ == (a@ + b@) % modulus(),
{
    let total = alloy_primitives::U256::from_limbs(a.limbs)
        + alloy_primitives::U256::from_limbs(b.limbs);
    U256 { limbs: total.into_limbs() }
}

/// Calls ruint's `Uint::saturating_sub`: the difference, and zero where it would be negative.
#[verifier::external_body]
pub(crate) fn saturating_sub(a: U256, b: U256) -> (r: U256)
    ensures
        r@ == (if a@ >= b@ {
            (a@ - b@) as nat
        } else {
            0
        }),
{
    let rest = alloy_primitives::U256::from_limbs(a.limbs)
        .saturating_sub(alloy_primitives::U256::from_limbs(b.limbs));
    U256 { limbs: rest.into_limbs() }
}

/// Calls ruint's `/` on amounts: the quotient, rounded down. The operator panics on a zero divisor.
#[verifier::external_body]
pub(crate) fn divided(a: U256, b: U256) -> (r: U256)
    requires
        b@ > 0,
    ensures
        r@ == a@ / b@,
{
    let quotient = alloy_primitives::U256::from_limbs(a.limbs)
        / alloy_primitives::U256::from_limbs(b.limbs);
    U256 { limbs: quotient.into_limbs() }
}

/// Calls ruint's `%` on amounts: what a division leaves. The operator panics on a zero divisor.
#[verifier::external_body]
pub(crate) fn remainder(a: U256, b: U256) -> (r: U256)
    requires
        b@ > 0,
    ensures
        r@ == a@ % b@,
{
    let rest = alloy_primitives::U256::from_limbs(a.limbs)
        % alloy_primitives::U256::from_limbs(b.limbs);
    U256 { limbs: rest.into_limbs() }
}

/// Calls ruint's `<` on amounts: their order as numbers.
#[verifier::external_body]
pub(crate) fn less(a: U256, b: U256) -> (r: bool)
    ensures
        r == (a@ < b@),
{
    alloy_primitives::U256::from_limbs(a.limbs) < alloy_primitives::U256::from_limbs(b.limbs)
}

/// Calls ruint's `Uint::from_be_slice`: the number that the bytes denote, most significant first.
/// The function panics where they take more than 256 bits.
#[verifier::external_body]
pub(crate) fn from_be_slice(bytes: &[u8]) -> (r: U256)
    requires
        bytes@.len() <= 32,
    ensures
        r@ == be_value(bytes@),
{
    U256 { limbs: alloy_primitives::U256::from_be_slice(bytes).into_limbs() }
}

impl U256 {
    /// The amount in decimal.
    pub fn to_text(self) -> (text: String)
        ensures
            text@ == decimal(self@),
    {
        amount_text(self)
    }
}

/// Calls ruint's `Display` on an amount: decimal notation without leading zeros.
#[verifier::external_body]
pub(crate) fn amount_text(a: U256) -> (text: String)
    ensures
        text@ == decimal(a@),
{
    alloy_primitives::U256::from_limbs(a.limbs).to_string()
}

} // verus!
