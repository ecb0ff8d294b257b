use shoplib::roman::roman_to_i64;

#[test]
fn test_roman_to_i64() {
    let tests = vec![
        ("I", 1),
        ("V", 5),
        ("X", 10),
        ("L", 50),
        ("C", 100),
        ("D", 500),
        ("M", 1000),
        ("II", 2),
        ("III", 3),
        ("VI", 6),
        ("XVIII", 18),
        ("XXIII", 23),
        ("DCCLXVI", 766),
        ("IV", 4),
        ("XIV", 14),
        ("XL", 40),
        ("XLI", 41),
        ("CCXCIV", 294),
    ];

    for (input, expected) in tests {
        assert_eq!(expected, roman_to_i64(input), "input={}", input);
    }
}

#[test]
fn empty_numeral_is_zero() {
    assert_eq!(0, roman_to_i64(""));
}
