use plonk_compat::decimal::decimal_string;

#[test]
fn numeral_of_zero() {
    assert_eq!(decimal_string(0), "0");
}

#[test]
fn numerals_of_small_numbers() {
    assert_eq!(decimal_string(7), "7");
    assert_eq!(decimal_string(10), "10");
    assert_eq!(decimal_string(99), "99");
    assert_eq!(decimal_string(100), "100");
    assert_eq!(decimal_string(1203), "1203");
}

#[test]
fn numeral_of_the_largest_index() {
    assert_eq!(decimal_string(u32::MAX), "4294967295");
}

#[test]
fn numeral_agrees_with_std() {
    let mut n: u32 = 1;
    for _ in 0..40 {
        assert_eq!(decimal_string(n), n.to_string());
        n = n.wrapping_mul(7).wrapping_add(3);
    }
}

#[test]
fn numerals_of_different_numbers_differ() {
    assert_ne!(decimal_string(1), decimal_string(10));
    assert_ne!(decimal_string(12), decimal_string(21));
}
