use plonk_compat::pow2::next_power_of_two;

#[test]
fn next_power_of_small_numbers() {
    assert_eq!(next_power_of_two(0), Some(1));
    assert_eq!(next_power_of_two(1), Some(1));
    assert_eq!(next_power_of_two(2), Some(2));
    assert_eq!(next_power_of_two(3), Some(4));
    assert_eq!(next_power_of_two(4), Some(4));
    assert_eq!(next_power_of_two(5), Some(8));
    assert_eq!(next_power_of_two(1000), Some(1024));
    assert_eq!(next_power_of_two(1025), Some(2048));
}

#[test]
fn power_of_two_is_its_own_next_power() {
    let mut p: usize = 1;
    for _ in 0..(usize::BITS - 1) {
        assert_eq!(next_power_of_two(p), Some(p));
        p *= 2;
    }
    assert_eq!(next_power_of_two(p), Some(p));
}

#[test]
fn next_power_taken_twice_is_taken_once() {
    for n in [0usize, 3, 6, 17, 100, 4097] {
        let once = next_power_of_two(n).unwrap();
        assert_eq!(next_power_of_two(once), Some(once));
    }
}

#[test]
fn next_power_that_does_not_fit() {
    let top: usize = 1 << (usize::BITS - 1);
    assert_eq!(next_power_of_two(top), Some(top));
    assert_eq!(next_power_of_two(top + 1), None);
    assert_eq!(next_power_of_two(usize::MAX), None);
}

#[test]
fn next_power_agrees_with_std() {
    for n in 0usize..300 {
        assert_eq!(next_power_of_two(n), n.checked_next_power_of_two());
    }
}
