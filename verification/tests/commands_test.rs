use dialog_core::commands::{apply, parse_line, Command, ProgressCmd};
use dialog_core::compat::Platform;
use dialog_core::config::{Config, JsonInput};
use dialog_core::number::Decimal;
use dialog_core::parser::parse;
use dialog_core::state::DialogState;

fn fresh(args: &[&str]) -> DialogState {
    DialogState::from_config(&Config::load(parse(args), JsonInput::Absent).unwrap(), Platform::Linux)
}

fn d(units: i64) -> Decimal {
    Decimal { thousandths: units * 1000 }
}

#[test]
fn title_and_message_update() {
    let mut s = fresh(&["--title", "Old", "--message", "old"]);
    apply(&mut s, &parse_line("title: New Title").unwrap());
    assert_eq!(s.title.as_deref(), Some("New Title"));
    apply(&mut s, &parse_line("message: Step one complete").unwrap());
    assert_eq!(s.message, "Step one complete");
    apply(&mut s, &parse_line("message: + And step two").unwrap());
    assert_eq!(s.message, "Step one complete\n\nAnd step two");
}

#[test]
fn progress_lifecycle() {
    let mut s = fresh(&["--progress", "4"]);
    apply(&mut s, &parse_line("progress: increment").unwrap());
    apply(&mut s, &parse_line("progress: increment").unwrap());
    assert_eq!(s.progress.as_ref().unwrap().current, Some(d(2)));
    apply(&mut s, &parse_line("progress: complete").unwrap());
    assert_eq!(s.progress.as_ref().unwrap().current, Some(d(4)));
    apply(&mut s, &parse_line("progress: reset").unwrap());
    assert_eq!(s.progress.as_ref().unwrap().current, None);
    apply(&mut s, &parse_line("progresstext: Installing 3 of 7").unwrap());
    assert_eq!(s.progress.as_ref().unwrap().text, "Installing 3 of 7");
}

#[test]
fn increment_clamps_to_total() {
    let mut s = fresh(&["--progress", "2"]);
    for _ in 0..5 {
        apply(&mut s, &parse_line("progress: increment").unwrap());
    }
    assert_eq!(s.progress.as_ref().unwrap().current, Some(d(2)));
}

#[test]
fn button_enable_disable() {
    let mut s = fresh(&["--button1disabled"]);
    assert!(!s.button1.enabled);
    apply(&mut s, &parse_line("button1: enable").unwrap());
    assert!(s.button1.enabled);
    apply(&mut s, &parse_line("button2: disable").unwrap());
    assert!(!s.button2.enabled);
}

#[test]
fn icon_swap_and_none() {
    let mut s = fresh(&["--icon", "warning"]);
    apply(&mut s, &parse_line("icon: SF=checkmark.circle.fill").unwrap());
    assert_eq!(s.icon.source, "SF=checkmark.circle.fill");
    assert!(!s.icon.hidden);
    apply(&mut s, &parse_line("icon: none").unwrap());
    assert!(s.icon.hidden);
}

#[test]
fn shell_commands_are_flagged() {
    let mut s = fresh(&[]);
    assert!(!apply(&mut s, &Command::Quit));
    assert!(!apply(&mut s, &parse_line("position: topright").unwrap()));
    assert!(!apply(&mut s, &parse_line("width: 900").unwrap()));
}

#[test]
fn malformed_lines_yield_none() {
    assert_eq!(parse_line("this is not a command"), None);
    assert_eq!(parse_line(""), None);
    assert_eq!(parse_line("frobnicate: yes"), None);
    assert_eq!(parse_line("progress: not-a-number"), None);
}

#[test]
fn quit_parses() {
    assert_eq!(parse_line("quit:"), Some(Command::Quit));
}

#[test]
fn listitem_update_by_title_and_index() {
    let mut s = fresh(&["--listitem", "Install Chrome", "--listitem", "Enroll"]);
    apply(
        &mut s,
        &parse_line("listitem: title: Install Chrome, status: success, statustext: Done").unwrap(),
    );
    assert_eq!(s.list_items[0].status, "success");
    assert_eq!(s.list_items[0].status_text, "Done");
    apply(&mut s, &parse_line("listitem: index: 1, progress: 40").unwrap());
    assert_eq!(s.list_items[1].progress, Some(d(40)));
    assert_eq!(s.list_items[1].status, "progress");
}

#[test]
fn listitem_legacy_form() {
    let mut s = fresh(&["--listitem", "Install Chrome"]);
    apply(&mut s, &parse_line("listitem: Install Chrome: wait").unwrap());
    assert_eq!(s.list_items[0].status, "wait");
}

#[test]
fn listitem_add_and_delete() {
    let mut s = fresh(&["--listitem", "A"]);
    apply(&mut s, &parse_line("listitem: add, title: B, status: pending").unwrap());
    assert_eq!(s.list_items.len(), 2);
    assert_eq!(s.list_items[1].title, "B");
    apply(&mut s, &parse_line("listitem: delete, title: A").unwrap());
    assert_eq!(s.list_items.len(), 1);
    assert_eq!(s.list_items[0].title, "B");
}

#[test]
fn list_replace_and_clear() {
    let mut s = fresh(&["--listitem", "Old"]);
    apply(&mut s, &parse_line("list: Step 1, Step 2, Step 3").unwrap());
    assert_eq!(
        s.list_items.iter().map(|i| i.title.as_str()).collect::<Vec<_>>(),
        ["Step 1", "Step 2", "Step 3"]
    );
    apply(&mut s, &parse_line("list: clear").unwrap());
    assert!(s.list_items.is_empty());
}

#[test]
fn listitem_spec_parsing_from_cli() {
    let s = fresh(&["--listitem", "Enroll Device,status=wait,statustext=Working,subtitle=MDM"]);
    let item = &s.list_items[0];
    assert_eq!(item.title, "Enroll Device");
    assert_eq!(item.status, "wait");
    assert_eq!(item.status_text, "Working");
    assert_eq!(item.subtitle.as_deref(), Some("MDM"));
}

#[test]
fn progress_set_decrement_and_floor() {
    let mut s = fresh(&[]);
    apply(&mut s, &parse_line("progress: 30").unwrap());
    assert_eq!(s.progress.as_ref().unwrap().total, d(100));
    assert_eq!(s.progress.as_ref().unwrap().current, Some(d(30)));
    apply(&mut s, &Command::Progress(ProgressCmd::Decrement(d(50))));
    assert_eq!(s.progress.as_ref().unwrap().current, Some(d(0)));
}

#[test]
fn title_none_command_hides_the_title() {
    let mut s = fresh(&["--title", "Shown"]);
    apply(&mut s, &parse_line("title: none").unwrap());
    assert_eq!(s.title, None);
}

#[test]
fn out_of_range_index_changes_nothing() {
    let mut s = fresh(&["--listitem", "A"]);
    apply(&mut s, &parse_line("listitem: index: 5, status: fail").unwrap());
    assert_eq!(s.list_items.len(), 1);
    assert_eq!(s.list_items[0].status, "");
}

#[test]
fn shell_commands_leave_the_content_unchanged() {
    let mut s = fresh(&["--title", "T", "--listitem", "Row", "--progress", "3"]);
    let before = s.clone();
    for line in ["width: 900", "height: 400", "position: topleft", "activate:", "quit:"] {
        let cmd = parse_line(line).unwrap();
        assert!(!apply(&mut s, &cmd));
    }
    assert_eq!(s, before);
}

#[test]
fn negative_steps_move_the_other_way() {
    let mut s = fresh(&["--progress", "10"]);
    apply(&mut s, &parse_line("progress: 5").unwrap());
    apply(&mut s, &Command::Progress(ProgressCmd::Increment(d(-2))));
    assert_eq!(s.progress.as_ref().unwrap().current, Some(d(3)));
    apply(&mut s, &Command::Progress(ProgressCmd::Decrement(d(-20))));
    assert_eq!(s.progress.as_ref().unwrap().current, Some(d(23)));
}

#[test]
fn verbs_ignore_ascii_case() {
    assert_eq!(parse_line("QUIT:"), Some(Command::Quit));
    assert_eq!(parse_line("Title: Mixed"), Some(Command::Title("Mixed".to_string())));
}
