use dialog_core::parser::parse;

#[test]
fn parses_long_and_short_forms() {
    let p = parse(&["--title", "Hi", "-m", "There", "--ontop"]);
    assert_eq!(p.value("title"), Some("Hi"));
    assert_eq!(p.value("message"), Some("There"));
    assert!(p.present("ontop"));
}

#[test]
fn deprecated_alias_resolves_to_canonical() {
    let p = parse(&["--alignment", "center"]);
    assert_eq!(p.value("messagealignment"), Some("center"));
    assert!(!p.present("alignment"));
}

#[test]
fn unknown_option_is_ignored_like_upstream() {
    let p = parse(&["--frobnicate", "--title", "Test"]);
    assert_eq!(p.ignored, ["--frobnicate"]);
    assert_eq!(p.value("title"), Some("Test"));
}

#[test]
fn bare_argument_is_ignored() {
    let p = parse(&["hello", "--title", "Hi"]);
    assert_eq!(p.ignored, ["hello"]);
    assert_eq!(p.value("title"), Some("Hi"));
}

#[test]
fn repeatable_options_accumulate_in_order() {
    let p = parse(&["--textfield", "Name", "--textfield", "Email,required"]);
    assert_eq!(p.values("textfield"), ["Name", "Email,required"]);
}

#[test]
fn last_value_wins_for_non_repeatable() {
    let p = parse(&["--title", "One", "--title", "Two"]);
    assert_eq!(p.value("title"), Some("Two"));
}

#[test]
fn trailing_value_option_records_empty_value() {
    let p = parse(&["--message", "hi", "--title"]);
    assert_eq!(p.value("title"), Some(""));
    assert!(p.present("title"));
}

#[test]
fn value_option_consumes_next_argument_unconditionally() {
    let p = parse(&["--title", "--ontop"]);
    assert_eq!(p.value("title"), Some("--ontop"));
    assert!(!p.present("ontop"));
}

#[test]
fn defaults_come_from_the_table() {
    let p = parse(&["--message", "hi"]);
    assert_eq!(p.value_or_default("button1text"), Some("OK"));
    assert_eq!(p.value_or_default("width"), Some("820"));
    assert_eq!(p.value_or_default("title"), Some("default-title"));
}

#[test]
fn flag_followed_by_option_does_not_swallow_it() {
    let p = parse(&["--ontop", "--title", "Hi"]);
    assert!(p.present("ontop"));
    assert_eq!(p.value("title"), Some("Hi"));
}

#[test]
fn stray_token_changes_nothing_else() {
    let with = parse(&["stray", "--title", "A", "--ontop"]);
    let without = parse(&["--title", "A", "--ontop"]);
    assert_eq!(with.value("title"), without.value("title"));
    assert_eq!(with.present("ontop"), without.present("ontop"));
    assert_eq!(with.ignored, ["stray"]);
    assert!(without.ignored.is_empty());
}

#[test]
fn repeated_value_option_keeps_both_in_order() {
    let p = parse(&["-t", "first", "--title", "second"]);
    assert_eq!(p.values("title"), ["first", "second"]);
    assert_eq!(p.value("title"), Some("second"));
}

#[test]
fn present_options_lists_flags_then_values_once_each() {
    let p = parse(&["--ontop", "--title", "A", "--message", "m", "--title", "B"]);
    assert_eq!(p.present_options(), vec!["ontop", "title", "message"]);
}

#[test]
fn unknown_name_has_no_default() {
    let none: [&str; 0] = [];
    let p = parse(&none);
    assert_eq!(p.value_or_default("nosuchoption"), None);
    assert_eq!(p.value("title"), None);
    assert!(!p.present("title"));
}

#[test]
fn present_options_are_canonical_and_present() {
    let p = parse(&["--alignment", "left", "--ontop", "stray", "-t", "x"]);
    let names = p.present_options();
    assert_eq!(names, vec!["ontop", "messagealignment", "title"]);
    for n in names {
        let d = dialog_core::options::by_long(n).unwrap();
        assert!(d.alias_of.is_none() && p.present(n));
    }
}
