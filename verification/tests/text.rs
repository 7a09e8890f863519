use secubot::text::{char_of_digit, chars_of, digit_of, is_ascii_digit, push_decimal};

#[test]
fn digits_are_the_ten_ascii_digits() {
    for c in "0123456789".chars() {
        assert!(is_ascii_digit(c));
    }
    for c in "/:aA \u{0661}".chars() {
        assert!(!is_ascii_digit(c));
    }
}

#[test]
fn digit_values_and_characters_match() {
    for (value, c) in "0123456789".chars().enumerate() {
        assert_eq!(digit_of(c), value as u64);
        assert_eq!(char_of_digit(value as u64), c);
    }
}

#[test]
fn chars_of_keeps_every_character() {
    assert_eq!(chars_of(""), Vec::<char>::new());
    assert_eq!(chars_of("aé<"), vec!['a', 'é', '<']);
}

#[test]
fn decimal_is_written_without_leading_zeros() {
    for (n, expected) in [
        (0u64, "0"),
        (7, "7"),
        (10, "10"),
        (1024, "1024"),
        (90_000_001, "90000001"),
        (u64::MAX, "18446744073709551615"),
    ] {
        let mut out = String::from(">");
        push_decimal(&mut out, n);
        assert_eq!(out, format!(">{}", expected));
    }
}
