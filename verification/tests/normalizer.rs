use n2o::convert_to_ten_digits;
use n2o::letter_to_digit;

/// Test basic behavior of our helper function.
#[test]
fn test_convert_to_ten_digits() {
    // Standard formats
    assert_eq!(convert_to_ten_digits("12345"), "12345"); // Fewer than 10 digits
    assert_eq!(convert_to_ten_digits("+1-555-123-4567"), "5551234567"); // Valid 10-digit US number
    assert_eq!(convert_to_ten_digits("1234567890123"), "4567890123"); // Over 10 digits

    // Edge cases
    assert_eq!(convert_to_ten_digits("(123) 456-7890"), "1234567890"); // US format with parentheses
    assert_eq!(convert_to_ten_digits("555.123.4567"), "5551234567"); // Dots as separators
    assert_eq!(convert_to_ten_digits("  555 123 4567  "), "5551234567"); // Leading/trailing spaces
    assert_eq!(convert_to_ten_digits("1 (800) FLOWERS"), "8003569377"); // Vanity number
    assert_eq!(convert_to_ten_digits("1111111111"), "1111111111"); // Exactly 10 digits

    // Invalid input edge cases
    assert_eq!(convert_to_ten_digits("abc123"), "222123"); // Letters read off the keypad
    assert_eq!(convert_to_ten_digits(""), ""); // Empty string
    assert_eq!(convert_to_ten_digits("---"), ""); // Only non-digits
}

#[test]
fn keypad_maps_every_letter_in_both_cases() {
    let rows = [
        ("ABC", '2'),
        ("DEF", '3'),
        ("GHI", '4'),
        ("JKL", '5'),
        ("MNO", '6'),
        ("PQRS", '7'),
        ("TUV", '8'),
        ("WXYZ", '9'),
    ];
    for (letters, digit) in rows {
        for letter in letters.chars() {
            assert_eq!(letter_to_digit(letter), Some(digit));
            assert_eq!(letter_to_digit(letter.to_ascii_lowercase()), Some(digit));
        }
    }
}

#[test]
fn keypad_knows_letters_only() {
    for c in ['0', '9', ' ', '-', '@', '[', '`', '{', 'é', 'Ω', '\u{ff21}'] {
        assert_eq!(letter_to_digit(c), None);
    }
}

#[test]
fn keypad_agrees_with_upper_casing() {
    for code in 0u32..=0x7f {
        let c = char::from_u32(code).unwrap();
        assert_eq!(letter_to_digit(c), letter_to_digit(c.to_ascii_uppercase()));
        assert_eq!(letter_to_digit(c).is_some(), c.is_ascii_alphabetic());
    }
}

#[test]
fn normalizing_a_key_returns_it() {
    for raw in ["5551234567", "0000000000", "12345", "", "1 (800) FLOWERS", "99999999999999"] {
        let key = convert_to_ten_digits(raw);
        assert_eq!(convert_to_ten_digits(&key), key);
    }
}

#[test]
fn keys_are_at_most_ten_digits() {
    for raw in ["", "abc", "+44 (0) 20 7946 0958 ext. 12", "CALL-NOW-TODAY-PLEASE", "٣٤٥"] {
        let key = convert_to_ten_digits(raw);
        assert!(key.len() <= 10);
        assert!(key.chars().all(|c| c.is_ascii_digit()));
    }
}

#[test]
fn ten_or_fewer_digits_are_kept_whole() {
    assert_eq!(convert_to_ten_digits("0"), "0");
    assert_eq!(convert_to_ten_digits("012-345-6789"), "0123456789");
    assert_eq!(convert_to_ten_digits("call me"), "2255 63".replace(' ', ""));
}

#[test]
fn more_than_ten_digits_keep_the_last_ten() {
    assert_eq!(convert_to_ten_digits("12345678901"), "2345678901");
    assert_eq!(convert_to_ten_digits("1-800-CALL-NOW-TODAY"), "5566986329");
}

#[test]
fn characters_outside_ascii_are_dropped() {
    assert_eq!(convert_to_ten_digits("５５５"), "");
    assert_eq!(convert_to_ten_digits("é1ü2"), "12");
    assert_eq!(convert_to_ten_digits(" \t\n"), "");
}
