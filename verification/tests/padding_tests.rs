use shoplib::padding::left_pad;

#[test]
fn pads_string() {
    assert_eq!("-abc", left_pad("abc", 4, "-"));
    assert_eq!("--abc", left_pad("abc", 5, "-"));
    assert_eq!("helloabc", left_pad("abc", 8, "hello"))
}

#[test]
fn empty_padding_returns_the_string() {
    assert_eq!("abc", left_pad("abc", 10, ""));
}

#[test]
fn short_desired_size_returns_the_string() {
    assert_eq!("abc", left_pad("abc", 2, "-"));
    assert_eq!("abc", left_pad("abc", 0, "-"));
}

#[test]
fn sizes_are_measured_in_bytes() {
    // "\u{e9}" is one character but two bytes: one dash brings the byte
    // length to three, and a second would overshoot.
    assert_eq!("-\u{e9}", left_pad("\u{e9}", 3, "-"));
    // A two-character, four-byte string already fills a desired size of
    // four on its own.
    assert_eq!("\u{e9}\u{e9}", left_pad("\u{e9}\u{e9}", 4, "-"));
    // A multi-byte padding advances by its whole byte length.
    assert_eq!("\u{e9}ab", left_pad("ab", 4, "\u{e9}"));
}
