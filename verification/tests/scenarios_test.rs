use dialog_core::commands::{apply, parse_line};
use dialog_core::compat::Platform;
use dialog_core::config::{Config, JsonInput};
use dialog_core::exit_codes::{BUTTON1, TIMER};
use dialog_core::output::OutputValue;
use dialog_core::parser::parse;
use dialog_core::session::exit_input;
use dialog_core::state::DialogState;

fn state(args: &[&str]) -> DialogState {
    DialogState::from_config(&Config::load(parse(args), JsonInput::Absent).unwrap(), Platform::Linux)
}

#[test]
fn garbage_line_does_not_stop_later_lines() {
    let mut s = state(&["--title", "Start"]);
    for line in ["this is not a command", "title: Still Works"] {
        if let Some(cmd) = parse_line(line) {
            apply(&mut s, &cmd);
        }
    }
    assert_eq!(s.title.as_deref(), Some("Still Works"));
}

#[test]
fn plain_textfield_round_trip() {
    let mut s = state(&["--textfield", "Asset Tag"]);
    s.set_field(&"Asset Tag".to_string(), "A-1234".to_string());
    assert_eq!(exit_input(&s, BUTTON1, false).render_plain(), "Asset Tag : A-1234");
}

#[test]
fn checkbox_states_in_json_output() {
    let s = state(&["--checkbox", "Enable FileVault,checked", "--checkbox", "Join Wi-Fi", "--json"]);
    let json = exit_input(&s, BUTTON1, false).json_object();
    assert!(matches!(json.get("Enable FileVault"), Some(OutputValue::Flag(true))));
    assert!(matches!(json.get("Join Wi-Fi"), Some(OutputValue::Flag(false))));
}

#[test]
fn select_default_round_trip() {
    let s = state(&[
        "--selecttitle", "Department", "--selectvalues", "Engineering,Sales,HR",
        "--selectdefault", "Sales",
    ]);
    let lines = exit_input(&s, BUTTON1, false).plain_lines();
    assert!(lines.contains(&"\"Department\" : \"Sales\"".to_string()));
    assert!(lines.contains(&"\"Department\" index : \"1\"".to_string()));
}

#[test]
fn timer_expiry_returns_input_when_asked() {
    let mut s = state(&["--textfield", "Name", "--alwaysreturninput", "--timer", "2"]);
    s.set_field(&"Name".to_string(), "bob".to_string());
    assert_eq!(exit_input(&s, TIMER, true).render_plain(), "Name : bob");
}
