use dialog_core::compat::{degrade_warnings, implemented, DegradeReason, DegradeWarning, Platform};
use dialog_core::parser::parse;

#[test]
fn unimplemented_option_warns_but_parses() {
    let args = parse(&["--title", "Hi", "--blurscreen"]);
    let warnings = degrade_warnings(&args, &["title"], Platform::Windows);
    assert_eq!(
        warnings,
        vec![DegradeWarning { option: "blurscreen", reason: DegradeReason::NotImplemented }]
    );
}

#[test]
fn mac_only_option_is_platform_unavailable_on_windows() {
    let args = parse(&["--notification"]);
    let warnings = degrade_warnings(&args, &["notification"], Platform::Windows);
    assert_eq!(warnings[0].reason, DegradeReason::PlatformUnavailable);
}

#[test]
fn mac_only_option_on_macos_falls_through_to_implemented_check() {
    let args = parse(&["--notification"]);
    let warnings = degrade_warnings(&args, &["notification"], Platform::MacOs);
    assert!(warnings.is_empty());
}

#[test]
fn implemented_options_do_not_warn() {
    let args = parse(&["--title", "Hi", "--ontop"]);
    let warnings = degrade_warnings(&args, &["title", "ontop"], Platform::MacOs);
    assert!(warnings.is_empty());
}

#[test]
fn warning_message_format() {
    let w = DegradeWarning { option: "blurscreen", reason: DegradeReason::NotImplemented };
    assert_eq!(w.to_string(), "WARNING: --blurscreen not yet implemented — ignoring");
}

#[test]
fn platform_warning_message_format() {
    let w = DegradeWarning { option: "notification", reason: DegradeReason::PlatformUnavailable };
    assert_eq!(w.to_string(), "WARNING: --notification not available on this platform — ignoring");
}

#[test]
fn shell_implemented_list_is_quiet_for_a_basic_dialog() {
    let names = implemented();
    assert_eq!(names.len(), 54);
    assert!(names.contains(&"title") && names.contains(&"alwaysreturninput"));
    let args = parse(&["--title", "T", "--message", "M", "--button2", "--moveable"]);
    assert!(degrade_warnings(&args, &names, Platform::Linux).is_empty());
    let args = parse(&["--blurscreen", "--title", "T"]);
    assert_eq!(degrade_warnings(&args, &names, Platform::Linux).len(), 1);
}
