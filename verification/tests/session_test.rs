use dialog_core::compat::Platform;
use dialog_core::config::{Config, JsonInput};
use dialog_core::exit_codes::{BUTTON1, BUTTON2, INFO_BUTTON, QUIT_KEY, TIMER};
use dialog_core::parser::parse;
use dialog_core::session::{
    anchor, exit_input, help_text, submission_of, submit, ui_event, web_link, Placement,
    SubmitOutcome,
};
use dialog_core::state::DialogState;

fn state(args: &[&str]) -> DialogState {
    DialogState::from_config(&Config::load(parse(args), JsonInput::Absent).unwrap(), Platform::Linux)
}

#[test]
fn live_values_land_on_the_first_named_element() {
    let mut s = state(&[
        "--textfield", "Name", "--textfield", "Name", "--checkbox", "Box",
        "--selecttitle", "Site", "--selectvalues", "A,B",
    ]);
    s.set_field(&"Name".to_string(), "Ada".to_string());
    assert_eq!(s.text_fields[0].value, "Ada");
    assert_eq!(s.text_fields[1].value, "");
    s.set_field(&"Missing".to_string(), "x".to_string());
    assert_eq!(s.text_fields.len(), 2);
    s.set_checkbox(&"Box".to_string(), true);
    assert!(s.checkboxes[0].checked);
    s.set_select(&"Site".to_string(), "B".to_string());
    assert_eq!(s.selects[0].selected, "B");
}

#[test]
fn list_selection_ignores_rows_past_the_end() {
    let mut s = state(&["--enablelistselect", "--listitem", "Row"]);
    s.list_select(0, true);
    assert!(s.list_items[0].selected);
    s.list_select(3, true);
    assert_eq!(s.list_items.len(), 1);
}

#[test]
fn submit_blocks_on_errors_and_accepts_otherwise() {
    let mut s = state(&["--textfield", "Email,required", "--button1action", "https://example.com"]);
    let SubmitOutcome::Blocked(messages) = submit(&s) else { panic!("expected blocked") };
    assert_eq!(messages, vec!["\"Email\" is required".to_string()]);
    s.set_field(&"Email".to_string(), "a@b.co".to_string());
    let SubmitOutcome::Accept { open } = submit(&s) else { panic!("expected accept") };
    assert_eq!(open.as_deref(), Some("https://example.com"));
    let sub = submission_of(&s);
    assert_eq!(sub.text_fields, vec![("Email".to_string(), "a@b.co".to_string())]);
}

#[test]
fn empty_action_opens_nothing() {
    let s = state(&["--button1action", ""]);
    let SubmitOutcome::Accept { open } = submit(&s) else { panic!("expected accept") };
    assert_eq!(open, None);
}

#[test]
fn ui_events_pick_exit_codes() {
    let s = state(&["--button2text", "Later", "--infobuttonaction", "https://help"]);
    let r = ui_event(&s, "button2", false);
    assert_eq!((r.exit, r.unknown, r.open), (Some(BUTTON2), false, None));
    let r = ui_event(&s, "info", false);
    assert_eq!(r.open.as_deref(), Some("https://help"));
    assert_eq!(r.exit, None);
    assert_eq!(ui_event(&s, "info", true).exit, Some(INFO_BUTTON));
    assert_eq!(ui_event(&s, "quitkey", false).exit, Some(QUIT_KEY));
    assert!(ui_event(&s, "bogus", false).unknown);
}

#[test]
fn exit_output_follows_the_exit_code() {
    let mut s = state(&["--textfield", "Secret"]);
    s.set_field(&"Secret".to_string(), "hunter2".to_string());
    assert_eq!(exit_input(&s, BUTTON1, false).textfields.len(), 1);
    assert!(exit_input(&s, TIMER, false).is_empty());
    assert_eq!(exit_input(&s, TIMER, true).textfields.len(), 1);
}

#[test]
fn only_web_links_open() {
    assert!(web_link("https://example.com"));
    assert!(web_link("http://example.com"));
    assert!(web_link("mailto:a@b.co"));
    assert!(!web_link("file:///etc/passwd"));
    assert!(!web_link("/Applications/Calculator.app"));
}

#[test]
fn anchors_place_the_window() {
    assert_eq!(anchor("topleft"), Some((Placement::Start, Placement::Start)));
    assert_eq!(anchor("centre"), anchor("center"));
    assert_eq!(anchor("center"), Some((Placement::Middle, Placement::Middle)));
    assert_eq!(anchor("bottomright"), Some((Placement::End, Placement::End)));
    assert_eq!(anchor("left"), Some((Placement::Start, Placement::Middle)));
    assert_eq!(anchor("middle"), None);
}

#[test]
fn help_lists_visible_canonical_options() {
    let h = help_text();
    assert!(h.starts_with("dialog — swiftDialog-compatible dialog utility\n\nUsage: dialog [options]\n\nOptions:\n"));
    assert!(h.contains("  -t, --title <value>\n"));
    assert!(h.contains("  --ontop\n") || h.contains(", --ontop\n"));
    assert!(!h.contains("--alignment "));
    assert!(!h.contains("--button1shellaction"));
}
