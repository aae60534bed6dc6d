use vr8_core::text::{digit_str, push_decimal};

#[test]
fn digits_are_their_characters() {
    let all: Vec<&str> = (0..10u8).map(digit_str).collect();
    assert_eq!(all, vec!["0", "1", "2", "3", "4", "5", "6", "7", "8", "9"]);
}

#[test]
fn numerals_have_no_leading_zero() {
    for (n, expected) in [(0u128, "0"), (9, "9"), (10, "10"), (105, "105"), (1_000_000, "1000000")] {
        let mut text = String::new();
        push_decimal(&mut text, n);
        assert_eq!(text, expected);
    }
}

#[test]
fn numerals_are_appended_to_what_is_there() {
    let mut text = String::from("n=");
    push_decimal(&mut text, 42);
    push_decimal(&mut text, 7);
    assert_eq!(text, "n=427");
}

#[test]
fn numerals_agree_with_the_standard_library() {
    for n in (0..5000u128).chain([u64::MAX as u128, u128::MAX - 1, u128::MAX]) {
        let mut text = String::new();
        push_decimal(&mut text, n);
        assert_eq!(text, n.to_string());
    }
}
