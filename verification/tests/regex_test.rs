/// The matcher under test.
fn accepts(pattern: &str, text: &str) -> bool {
    dialog_core::regex_lite::matches(pattern, text)
}

#[test]
fn anchored_classes_and_counts() {
    assert!(accepts("^[A-Z0-9]{10}$", "ABCD123456"));
    assert!(!accepts("^[A-Z0-9]{10}$", "ABCD12345"));
    assert!(!accepts("^[A-Z0-9]{10}$", "abcd123456"));
    assert!(accepts("^[a-z]{2,4}$", "abc"));
    assert!(!accepts("^[a-z]{2,4}$", "abcde"));
    assert!(accepts("^[a-z]{2,}$", "abcdefgh"));
    assert!(!accepts("^[a-z]{2,}$", "a"));
}

#[test]
fn backtracking_finds_a_split() {
    assert!(accepts("^.+@.+\\..+$", "first.last@mail.example.com"));
    assert!(!accepts("^.+@.+\\..+$", "x@y"));
    assert!(accepts("^a*ab$", "aaab"));
    assert!(accepts("^x*$", ""));
    assert!(!accepts("^x+$", ""));
}

#[test]
fn negated_sets_and_escapes() {
    assert!(accepts("^[^0-9]+$", "abc"));
    assert!(!accepts("^[^0-9]+$", "ab1"));
    assert!(accepts("^\\(x\\)$", "(x)"));
    assert!(accepts("^[-a]+$", "a-a"));
}

#[test]
fn patterns_outside_the_subset_never_block() {
    assert!(accepts("^(a|b)$", "zzz"));
    assert!(accepts("^a?$", "zzz"));
    assert!(accepts("[A-Z]+", "lower"));
    assert!(accepts("^[A-Z", "x"));
    assert!(accepts("^a{2$", "x"));
    assert!(accepts("^a\\$", "x"));
    assert!(accepts("^", "anything"));
}

#[test]
fn empty_anchored_pattern_matches_only_empty_text() {
    assert!(accepts("^$", ""));
    assert!(!accepts("^$", "a"));
}

#[test]
fn quantifier_bounds_accept_a_plus_sign() {
    assert!(accepts("^a{+2}$", "aa"));
    assert!(!accepts("^a{2,1}$", "zz"));
    assert!(!accepts("^a{2,1}$", "aa"));
}
