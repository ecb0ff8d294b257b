use shoplib::words::count_words;

#[test]
fn no_matches() {
    assert_eq!(0, count_words(""));
    assert_eq!(0, count_words("hello"));
    assert_eq!(0, count_words("helasarlo"));
    assert_eq!(0, count_words("hello world"));
    assert_eq!(0, count_words("hellaso arworld"));
    assert_eq!(0, count_words("ra sa"));
}

#[test]
fn words_ending_in_s() {
    assert_eq!(1, count_words("s"));
    assert_eq!(1, count_words("xs"));
    assert_eq!(2, count_words("s s"));
    assert_eq!(2, count_words("xs xs"));
    assert_eq!(2, count_words("saasaa xxxs aaaaa zzzzs"));
}

#[test]
fn words_ending_in_r() {
    assert_eq!(1, count_words("r"));
    assert_eq!(1, count_words("xr"));
    assert_eq!(2, count_words("r r"));
    assert_eq!(2, count_words("xr xr"));
    assert_eq!(1, count_words("saasaa xxxr aaaaa"));
    assert_eq!(2, count_words("saasaa xxxr aaaaa zzzzr"));
}

#[test]
fn words_split_by_digits_and_punctuation() {
    assert_eq!(3, count_words("cars4us, stars!"));
    assert_eq!(1, count_words("user9name"));
}
