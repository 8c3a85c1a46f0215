//! Elements of the scalar field of BLS12-377, held by their canonical
//! integers. The field arithmetic itself is done by `ark_ff`.

use crate::decimal::{decimal_value, is_canonical_decimal};
use ark_bls12_377::Fr;
use ark_ff::{BigInt, PrimeField};
use std::str::FromStr;
use vstd::prelude::*;

verus! {

/// The order of the scalar field of BLS12-377, a prime of 253 bits.
pub open spec fn modulus() -> nat {
    8444461749428370424248824938781546531375899335154063827935233455917409239041nat
}

/// The least significant of the four 64-bit limbs of the field's order.
pub const MODULUS_LIMB_0: u64 = 0x0a11_8000_0000_0001;

/// The second limb of the field's order.
pub const MODULUS_LIMB_1: u64 = 0x59aa_76fe_d000_0001;

/// The third limb of the field's order.
pub const MODULUS_LIMB_2: u64 = 0x60b4_4d1e_5c37_b001;

/// The most significant limb of the field's order.
pub const MODULUS_LIMB_3: u64 = 0x12ab_655e_9a2c_a556;

/// The four limbs are those of the field's order.
pub proof fn lemma_modulus_limbs()
    ensures
        limbs_value(seq![MODULUS_LIMB_0, MODULUS_LIMB_1, MODULUS_LIMB_2, MODULUS_LIMB_3])
            == modulus(),
{
}

/// The number that four 64-bit limbs denote, least significant limb first.
pub open spec fn limbs_value(l: Seq<u64>) -> nat
    recommends
        l.len() == 4,
{
    (l[0] + l[1] * 0x1_0000_0000_0000_0000int + l[2]
        * 0x1_0000_0000_0000_0000_0000_0000_0000_0000int + l[3]
        * 0x1_0000_0000_0000_0000_0000_0000_0000_0000_0000_0000_0000_0000int) as nat
}

/// The field element that a decimal numeral denotes: the numeral's number
/// reduced by the field's order. A text that is no numeral in canonical form
/// denotes none.
pub open spec fn field_of_decimal(text: Seq<char>) -> Option<nat> {
    if is_canonical_decimal(text) {
        Some(decimal_value(text) % modulus())
    } else {
        None
    }
}

/// An element of the scalar field, as the limbs of its canonical integer.
#[derive(Clone, Copy, Debug, PartialEq, Eq)]
pub struct Scalar {
    /// The canonical integer, least significant limb first.
    pub limbs: [u64; 4],
}

impl View for Scalar {
    type V = nat;

    open spec fn view(&self) -> nat {
        limbs_value(self.limbs@)
    }
}

/// `Fp::from_str` of `ark_ff` on the scalar field of `ark_bls12_377`, with the
/// element it gives turned into its canonical integer by
/// `PrimeField::into_bigint`. The call accepts the decimal numerals in
/// canonical form and no other text, and a numeral gives the element that its
/// number is congruent to.
#[verifier::external_body]
fn fr_from_decimal(text: &str) -> (r: Option<Scalar>)
    ensures
        r is Some <==> field_of_decimal(text@) is Some,
        r matches Some(x) ==> x.wf() && Some(x@) == field_of_decimal(text@),
{
    match Fr::from_str(text) {
        Ok(x) => Some(Scalar { limbs: x.into_bigint().0 }),
        Err(_) => None,
    }
}

/// The product of two field elements by `ark_ff`: each canonical integer is
/// turned into an element by `PrimeField::from_bigint`, the two are multiplied
/// with `*`, and the product is turned back by `PrimeField::into_bigint`. The
/// result is the canonical integer of the product in the field.
#[verifier::external_body]
fn fr_mul(a: &Scalar, b: &Scalar) -> (r: Scalar)
    requires
        a.wf(),
        b.wf(),
    ensures
        r.wf(),
        r@ == (a@ * b@) % modulus(),
{
    let x = Fr::from_bigint(BigInt::new(a.limbs)).unwrap();
    let y = Fr::from_bigint(BigInt::new(b.limbs)).unwrap();
    Scalar { limbs: (x * y).into_bigint().0 }
}

impl Scalar {
    /// Whether the limbs hold a canonical integer: one below the field's
    /// order.
    pub open spec fn wf(&self) -> bool {
        self@ < modulus()
    }

    /// The element whose canonical integer has these limbs, least significant
    /// first, if there is one.
    pub fn from_limbs(limbs: [u64; 4]) -> (r: Option<Scalar>)
        ensures
            r == if limbs_value(limbs@) < modulus() {
                Some(Scalar { limbs })
            } else {
                None
            },
    {
        let below = if limbs[3] != MODULUS_LIMB_3 {
            limbs[3] < MODULUS_LIMB_3
        } else if limbs[2] != MODULUS_LIMB_2 {
            limbs[2] < MODULUS_LIMB_2
        } else if limbs[1] != MODULUS_LIMB_1 {
            limbs[1] < MODULUS_LIMB_1
        } else {
            limbs[0] < MODULUS_LIMB_0
        };
        if below {
            Some(Scalar { limbs })
        } else {
            None
        }
    }

    /// The element of a number below 2^64.
    pub fn from_u64(x: u64) -> (r: Scalar)
        ensures
            r.wf(),
            r@ == x,
    {
        Scalar { limbs: [x, 0, 0, 0] }
    }

    /// The element that the decimal numeral `text` denotes. A text that is no
    /// numeral in canonical form denotes none.
    pub fn parse(text: &str) -> (r: Option<Scalar>)
        ensures
            r is Some <==> field_of_decimal(text@) is Some,
            r matches Some(x) ==> x.wf() && Some(x@) == field_of_decimal(text@),
    {
        fr_from_decimal(text)
    }

    /// The product of `self` and `rhs` in the field.
    pub fn mul(&self, rhs: &Scalar) -> (r: Scalar)
        requires
            self.wf(),
            rhs.wf(),
        ensures
            r.wf(),
            r@ == (self@ * rhs@) % modulus(),
    {
        fr_mul(self, rhs)
    }
}

} // verus!
