use plonk_compat::scalar::{
    Scalar, MODULUS_LIMB_0, MODULUS_LIMB_1, MODULUS_LIMB_2, MODULUS_LIMB_3,
};

const ORDER: &str = "8444461749428370424248824938781546531375899335154063827935233455917409239041";
const ORDER_PLUS_ONE: &str =
    "8444461749428370424248824938781546531375899335154063827935233455917409239042";
const ORDER_MINUS_ONE: &str =
    "8444461749428370424248824938781546531375899335154063827935233455917409239040";

#[test]
fn parse_small_numerals() {
    assert_eq!(Scalar::parse("0"), Some(Scalar { limbs: [0, 0, 0, 0] }));
    assert_eq!(Scalar::parse("1"), Some(Scalar { limbs: [1, 0, 0, 0] }));
    assert_eq!(Scalar::parse("65536"), Some(Scalar { limbs: [65536, 0, 0, 0] }));
    assert_eq!(Scalar::parse("18446744073709551615"), Some(Scalar { limbs: [u64::MAX, 0, 0, 0] }));
}

#[test]
fn parse_numerals_of_more_than_one_limb() {
    assert_eq!(Scalar::parse("18446744073709551616"), Some(Scalar { limbs: [0, 1, 0, 0] }));
    assert_eq!(
        Scalar::parse("123456789012345678901234567890123456789012345678901234567890"),
        Some(Scalar {
            limbs: [0x8ccff196ce3f0ad2, 0x3f87a4378c37b49c, 0xaaf504e4bc1e6217, 0x13],
        })
    );
}

#[test]
fn parse_reduces_by_the_order() {
    assert_eq!(Scalar::parse(ORDER), Some(Scalar { limbs: [0, 0, 0, 0] }));
    assert_eq!(Scalar::parse(ORDER_PLUS_ONE), Some(Scalar { limbs: [1, 0, 0, 0] }));
    assert_eq!(
        Scalar::parse(ORDER_MINUS_ONE),
        Some(Scalar {
            limbs: [MODULUS_LIMB_0 - 1, MODULUS_LIMB_1, MODULUS_LIMB_2, MODULUS_LIMB_3],
        })
    );
    let ten_to_the_eighty = format!("1{}", "0".repeat(80));
    assert_eq!(
        Scalar::parse(&ten_to_the_eighty),
        Some(Scalar {
            limbs: [
                0x427cffffffffd1be,
                0xa44db0532ec0cfec,
                0x797a24c027a87a54,
                0x1831c07a6a7c9cb,
            ],
        })
    );
}

#[test]
fn parse_refuses_what_is_no_canonical_numeral() {
    assert_eq!(Scalar::parse(""), None);
    assert_eq!(Scalar::parse("00"), None);
    assert_eq!(Scalar::parse("01"), None);
    assert_eq!(Scalar::parse("007"), None);
    assert_eq!(Scalar::parse("+1"), None);
    assert_eq!(Scalar::parse("-1"), None);
    assert_eq!(Scalar::parse("12a"), None);
    assert_eq!(Scalar::parse("a12"), None);
    assert_eq!(Scalar::parse(" 12"), None);
    assert_eq!(Scalar::parse("12 "), None);
    assert_eq!(Scalar::parse("1_000"), None);
    assert_eq!(Scalar::parse("0x10"), None);
    assert_eq!(Scalar::parse("1.5"), None);
    assert_eq!(Scalar::parse("\u{0661}"), None);
}

#[test]
fn from_u64_holds_the_number_in_the_lowest_limb() {
    assert_eq!(Scalar::from_u64(0), Scalar { limbs: [0, 0, 0, 0] });
    assert_eq!(Scalar::from_u64(2), Scalar { limbs: [2, 0, 0, 0] });
    assert_eq!(Scalar::from_u64(u64::MAX), Scalar { limbs: [u64::MAX, 0, 0, 0] });
    assert_eq!(Some(Scalar::from_u64(65536)), Scalar::parse("65536"));
}

#[test]
fn from_limbs_accepts_what_is_below_the_order() {
    assert_eq!(Scalar::from_limbs([0, 0, 0, 0]), Some(Scalar { limbs: [0, 0, 0, 0] }));
    assert_eq!(Scalar::from_limbs([5, 6, 7, 8]), Some(Scalar { limbs: [5, 6, 7, 8] }));
    let below = [MODULUS_LIMB_0 - 1, MODULUS_LIMB_1, MODULUS_LIMB_2, MODULUS_LIMB_3];
    assert_eq!(Scalar::from_limbs(below), Some(Scalar { limbs: below }));
    assert_eq!(
        Scalar::from_limbs([u64::MAX, u64::MAX, u64::MAX, MODULUS_LIMB_3 - 1]),
        Some(Scalar { limbs: [u64::MAX, u64::MAX, u64::MAX, MODULUS_LIMB_3 - 1] })
    );
}

#[test]
fn from_limbs_refuses_the_order_and_what_is_above() {
    assert_eq!(
        Scalar::from_limbs([MODULUS_LIMB_0, MODULUS_LIMB_1, MODULUS_LIMB_2, MODULUS_LIMB_3]),
        None
    );
    assert_eq!(
        Scalar::from_limbs([MODULUS_LIMB_0 + 1, MODULUS_LIMB_1, MODULUS_LIMB_2, MODULUS_LIMB_3]),
        None
    );
    assert_eq!(
        Scalar::from_limbs([0, MODULUS_LIMB_1 + 1, MODULUS_LIMB_2, MODULUS_LIMB_3]),
        None
    );
    assert_eq!(Scalar::from_limbs([0, 0, MODULUS_LIMB_2 + 1, MODULUS_LIMB_3]), None);
    assert_eq!(Scalar::from_limbs([0, 0, 0, MODULUS_LIMB_3 + 1]), None);
    assert_eq!(Scalar::from_limbs([u64::MAX, u64::MAX, u64::MAX, u64::MAX]), None);
}

#[test]
fn mul_of_small_numbers() {
    let two = Scalar::from_u64(2);
    let three = Scalar::from_u64(3);
    assert_eq!(two.mul(&three), Scalar::from_u64(6));
    assert_eq!(three.mul(&two), Scalar::from_u64(6));
    assert_eq!(two.mul(&Scalar::from_u64(0)), Scalar::from_u64(0));
    assert_eq!(three.mul(&Scalar::from_u64(1)), three);
}

#[test]
fn mul_carries_into_the_next_limb() {
    let x = Scalar::from_u64(1 << 63);
    assert_eq!(x.mul(&Scalar::from_u64(2)), Scalar { limbs: [0, 1, 0, 0] });
}

#[test]
fn mul_reduces_by_the_order() {
    let minus_one = Scalar::parse(ORDER_MINUS_ONE).unwrap();
    assert_eq!(minus_one.mul(&minus_one), Scalar::from_u64(1));
    let x = Scalar::parse("123456789012345678901234567890123456789012345678901234567890").unwrap();
    let y = Scalar::parse("98765432109876543210987654321098765432109876543210").unwrap();
    assert_eq!(
        x.mul(&y),
        Scalar {
            limbs: [
                0xfa89e32e3052ae7b,
                0x729d45322b3a8a5b,
                0x485c91b57cc08ed2,
                0x9cbc99e6dc77de3,
            ],
        }
    );
}
