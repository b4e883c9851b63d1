use dialog_core::compat::Platform;
use dialog_core::config::{Config, JsonInput};
use dialog_core::parser::parse;
use dialog_core::state::DialogState;
use dialog_core::validation::{validate, Submission};

fn state(args: &[&str]) -> DialogState {
    DialogState::from_config(&Config::load(parse(args), JsonInput::Absent).unwrap(), Platform::Linux)
}

fn sub(fields: &[(&str, &str)]) -> Submission {
    Submission {
        text_fields: fields.iter().map(|(n, v)| (n.to_string(), v.to_string())).collect(),
        selects: Vec::new(),
    }
}

#[test]
fn required_field_blocks_when_empty() {
    let s = state(&["--textfield", "Email,required"]);
    let errs = validate(&s, &sub(&[("Email", "")]));
    assert_eq!(errs.len(), 1);
    assert!(errs[0].message.contains("Email"));
    assert!(validate(&s, &sub(&[("Email", "a@b.co")])).is_empty());
}

#[test]
fn regex_validation_with_custom_error() {
    let s = state(&["--textfield", "Serial,regex=^[A-Z0-9]{10}$,regexerror=Must be 10 characters"]);
    let errs = validate(&s, &sub(&[("Serial", "abc")]));
    assert_eq!(errs[0].message, "Must be 10 characters");
    assert!(validate(&s, &sub(&[("Serial", "ABCD123456")])).is_empty());
}

#[test]
fn email_like_pattern() {
    let s = state(&["--textfield", "Email,regex=^.+@.+\\..+$"]);
    assert!(validate(&s, &sub(&[("Email", "x@y.com")])).is_empty());
    assert_eq!(validate(&s, &sub(&[("Email", "nope")])).len(), 1);
}

#[test]
fn empty_optional_field_skips_regex() {
    let s = state(&["--textfield", "Serial,regex=^[A-Z]+$"]);
    assert!(validate(&s, &sub(&[("Serial", "")])).is_empty());
}

#[test]
fn required_select_blocks() {
    let s = state(&["--selecttitle", "Site,required", "--selectvalues", "NYC,SFO"]);
    let mut submission = Submission::default();
    submission.selects.push(("Site".into(), String::new()));
    assert_eq!(validate(&s, &submission).len(), 1);
    submission.selects[0].1 = "NYC".into();
    assert!(validate(&s, &submission).is_empty());
}

#[test]
fn unsupported_pattern_does_not_block() {
    let s = state(&["--textfield", "X,regex=^(a|b)$"]);
    assert!(validate(&s, &sub(&[("X", "zzz")])).is_empty());
}

#[test]
fn messages_quote_the_title() {
    let s = state(&["--textfield", "Email,required", "--textfield", "Code,regex=^[0-9]+$"]);
    let errs = validate(&s, &sub(&[("Email", "   "), ("Code", "12a")]));
    let messages: Vec<&str> = errs.iter().map(|e| e.message.as_str()).collect();
    assert_eq!(messages, ["\"Email\" is required", "\"Code\" is invalid"]);
}

#[test]
fn missing_submission_counts_as_blank() {
    let s = state(&["--textfield", "Email,required"]);
    assert_eq!(validate(&s, &Submission::default()).len(), 1);
}
