use dialog_core::suboptions::parse_spec;

#[test]
fn title_flags_and_values() {
    let s = parse_spec("Serial Number,required,secure,prompt=Enter serial,regex=^[A-Z0-9]+$");
    assert_eq!(s.title, "Serial Number");
    assert!(s.flag("required") && s.flag("secure"));
    assert_eq!(s.get("prompt"), Some("Enter serial"));
    assert_eq!(s.get("regex"), Some("^[A-Z0-9]+$"));
}

#[test]
fn plain_title_only() {
    let s = parse_spec("Install Chrome");
    assert_eq!(s.title, "Install Chrome");
    assert!(s.flags.is_empty() && s.values.is_empty());
}

#[test]
fn listitem_style_spec() {
    let s = parse_spec("Enroll Device,status=wait,statustext=Working");
    assert_eq!(s.title, "Enroll Device");
    assert_eq!(s.get("status"), Some("wait"));
    assert_eq!(s.get("statustext"), Some("Working"));
}

#[test]
fn later_key_wins_and_keys_are_case_insensitive() {
    let s = parse_spec("T, Status = wait ,STATUS=done, Required ");
    assert_eq!(s.get("status"), Some("done"));
    assert!(s.flag("required"));
    assert!(!s.flag("secure"));
    assert_eq!(s.get("missing"), None);
}
