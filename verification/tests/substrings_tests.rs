use shoplib::substrings::substrings_between;

#[test]
fn main_no_matches() {
    assert_eq!(Vec::<&str>::new(), substrings_between("", "a", "b"));
    assert_eq!(Vec::<&str>::new(), substrings_between("a", "", "b"));
    assert_eq!(Vec::<&str>::new(), substrings_between("a", "a", ""));
    assert_eq!(Vec::<&str>::new(), substrings_between("", "", ""));
    assert_eq!(Vec::<&str>::new(), substrings_between("a", "a", "b"));
    assert_eq!(Vec::<&str>::new(), substrings_between("b", "a", "b"));
    assert_eq!(Vec::<&str>::new(), substrings_between("bxxxa", "a", "b"));
}

#[test]
fn one_match() {
    assert_eq!(vec!["1"], substrings_between("a1b", "a", "b"));
    assert_eq!(vec!["xxx"], substrings_between("aaxxxbb", "aa", "bb"));
    assert_eq!(vec!["xxx"], substrings_between("axxxbb", "a", "bb"));
    assert_eq!(vec!["xxx"], substrings_between("aaxxxb", "aa", "b"));
    assert_eq!(vec!["2"], substrings_between("c1ba2ba3c", "a", "b"));
}

#[test]
fn many_matches() {
    assert_eq!(
        vec!["1", "2", "3"],
        substrings_between("a1ba2ba3b", "a", "b")
    );

    assert_eq!(vec!["1", "2"], substrings_between("a1ba2ba3c", "a", "b"));

    assert_eq!(vec!["2", "3"], substrings_between("c1ba2ba3b", "a", "b"));
}
