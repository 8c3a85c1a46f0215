use plonk_compat::scalar::Scalar;
use plonk_compat::squaring::{squaring_output, squaring_public_values};

#[test]
fn two_squared_four_times_is_65536() {
    assert_eq!(squaring_output(Scalar::from_u64(2), 4), Scalar::from_u64(65536));
}

#[test]
fn squared_no_time_is_the_start() {
    assert_eq!(squaring_output(Scalar::from_u64(2), 0), Scalar::from_u64(2));
    assert_eq!(squaring_output(Scalar::from_u64(77), 0), Scalar::from_u64(77));
}

#[test]
fn squared_once_and_twice() {
    assert_eq!(squaring_output(Scalar::from_u64(3), 1), Scalar::from_u64(9));
    assert_eq!(squaring_output(Scalar::from_u64(3), 2), Scalar::from_u64(81));
    assert_eq!(squaring_output(Scalar::from_u64(7), 4), Scalar::from_u64(33232930569601));
}

#[test]
fn squaring_leaves_zero_and_one() {
    assert_eq!(squaring_output(Scalar::from_u64(0), 9), Scalar::from_u64(0));
    assert_eq!(squaring_output(Scalar::from_u64(1), 9), Scalar::from_u64(1));
}

#[test]
fn squaring_reduces_by_the_order() {
    assert_eq!(
        squaring_output(Scalar::from_u64(5), 10),
        Scalar {
            limbs: [
                0xa6e94b973188991,
                0x411cd45e6327a30d,
                0x8093e70731805c6b,
                0xa62d664bab842b2,
            ],
        }
    );
}

#[test]
fn four_squarings_are_the_sixteenth_power() {
    for text in ["2", "3", "1234567890123456789012345678901234567890", "99999999999999999999"] {
        let x = Scalar::parse(text).unwrap();
        let mut power = Scalar::from_u64(1);
        for _ in 0..16 {
            power = power.mul(&x);
        }
        assert_eq!(squaring_output(x, 4), power);
    }
}

#[test]
fn public_value_of_the_squaring_circuit_is_named_out() {
    let public = squaring_public_values(Scalar::from_u64(2), 4);
    assert_eq!(public.len(), 1);
    assert_eq!(public.entries[0].name, "out");
    assert_eq!(public.entries[0].value, Scalar::from_u64(65536));
    assert_eq!(public.get("out"), Some(Scalar::from_u64(65536)));
    assert_eq!(public.get("in"), None);
}

#[test]
fn one_party_and_several_expect_the_same_output() {
    let start = Scalar::parse("2").unwrap();
    let alone = squaring_public_values(Scalar::from_u64(2), 4);
    let together = squaring_public_values(start, 4);
    assert_eq!(alone.get("out"), together.get("out"));
}
