use plonk_compat::error::{Error, ErrorKind};
use plonk_compat::token::parse_constraint;

#[test]
fn token_with_three_indices_parses() {
    assert_eq!(parse_constraint("(1|2|3)"), Ok((1, 2, 3)));
    assert_eq!(parse_constraint("(0|0|0)"), Ok((0, 0, 0)));
    assert_eq!(parse_constraint("(12|345|6789)"), Ok((12, 345, 6789)));
}

#[test]
fn token_with_two_fields_is_malformed() {
    let r = parse_constraint("(1|2)");
    assert_eq!(r, Err(Error::MalformedConstraint));
    assert_eq!(r.unwrap_err().kind(), ErrorKind::MalformedInput);
}

#[test]
fn token_with_four_fields_is_malformed() {
    assert_eq!(parse_constraint("(1|2|3|4)"), Err(Error::MalformedConstraint));
    assert_eq!(parse_constraint("(1|2|3|)"), Err(Error::MalformedConstraint));
}

#[test]
fn token_with_one_field_is_malformed() {
    assert_eq!(parse_constraint("(7)"), Err(Error::MalformedConstraint));
    assert_eq!(parse_constraint("7"), Err(Error::MalformedConstraint));
}

#[test]
fn empty_token_is_malformed() {
    assert_eq!(parse_constraint(""), Err(Error::MalformedConstraint));
    assert_eq!(parse_constraint("()"), Err(Error::MalformedConstraint));
    assert_eq!(parse_constraint("(||)"), Err(Error::MalformedConstraint));
}

#[test]
fn parentheses_around_a_token_are_optional_and_may_repeat() {
    assert_eq!(parse_constraint("1|2|3"), Ok((1, 2, 3)));
    assert_eq!(parse_constraint("((1|2|3))"), Ok((1, 2, 3)));
    assert_eq!(parse_constraint("(1|2|3"), Ok((1, 2, 3)));
    assert_eq!(parse_constraint("1|2|3)"), Ok((1, 2, 3)));
    assert_eq!(parse_constraint(")1|2|3("), Ok((1, 2, 3)));
}

#[test]
fn parentheses_inside_a_token_are_malformed() {
    assert_eq!(parse_constraint("(1|(2)|3)"), Err(Error::MalformedConstraint));
    assert_eq!(parse_constraint("(1|2|3)x"), Err(Error::MalformedConstraint));
    assert_eq!(parse_constraint("x(1|2|3)"), Err(Error::MalformedConstraint));
}

#[test]
fn field_that_is_no_number_is_malformed() {
    assert_eq!(parse_constraint("(a|2|3)"), Err(Error::MalformedConstraint));
    assert_eq!(parse_constraint("(1|2|three)"), Err(Error::MalformedConstraint));
    assert_eq!(parse_constraint("(1||3)"), Err(Error::MalformedConstraint));
    assert_eq!(parse_constraint("( 1|2|3)"), Err(Error::MalformedConstraint));
    assert_eq!(parse_constraint("(1|2 |3)"), Err(Error::MalformedConstraint));
    assert_eq!(parse_constraint("(1.0|2|3)"), Err(Error::MalformedConstraint));
    assert_eq!(parse_constraint("(\u{0661}|2|3)"), Err(Error::MalformedConstraint));
}

#[test]
fn sign_of_a_field() {
    assert_eq!(parse_constraint("(+1|+2|+3)"), Ok((1, 2, 3)));
    assert_eq!(parse_constraint("(-1|2|3)"), Err(Error::MalformedConstraint));
    assert_eq!(parse_constraint("(-0|2|3)"), Err(Error::MalformedConstraint));
    assert_eq!(parse_constraint("(+|2|3)"), Err(Error::MalformedConstraint));
    assert_eq!(parse_constraint("(++1|2|3)"), Err(Error::MalformedConstraint));
}

#[test]
fn leading_zeros_of_a_field_are_accepted() {
    assert_eq!(parse_constraint("(007|00|0000000000000000000001)"), Ok((7, 0, 1)));
}

#[test]
fn field_at_and_above_the_largest_index() {
    assert_eq!(parse_constraint("(4294967295|0|1)"), Ok((4294967295, 0, 1)));
    assert_eq!(parse_constraint("(4294967296|0|1)"), Err(Error::MalformedConstraint));
    assert_eq!(parse_constraint("(0|1|99999999999999999999999)"), Err(Error::MalformedConstraint));
}

#[test]
fn token_agrees_with_std_on_each_field() {
    let fields = ["0", "1", "42", "+5", "-5", "", "+", "4294967295", "4294967296", "0012", "1_000", " 3", "3 ", "0x10", "\u{0663}"];
    for a in fields.iter() {
        let token = format!("({}|7|8)", a);
        let expected = match a.parse::<u32>() {
            Ok(v) => Ok((v, 7, 8)),
            Err(_) => Err(Error::MalformedConstraint),
        };
        assert_eq!(parse_constraint(&token), expected);
    }
}
