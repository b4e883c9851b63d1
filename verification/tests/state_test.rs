use dialog_core::compat::Platform;
use dialog_core::config::{json_input_of, json_source, Config, JsonInput, JsonSource};
use dialog_core::number::Decimal;
use dialog_core::parser::parse;
use dialog_core::state::{Alignment, DialogState};

fn state(args: &[&str]) -> DialogState {
    let cli = parse(args);
    let input = match json_source(&cli) {
        None => JsonInput::Absent,
        Some(JsonSource::File(path)) => JsonInput::Unreadable(path),
        Some(JsonSource::Text(text)) => json_input_of(&text),
    };
    DialogState::from_config(&Config::load(cli, input).unwrap(), Platform::Linux)
}

fn d(units: i64) -> Decimal {
    Decimal { thousandths: units * 1000 }
}

#[test]
fn defaults_match_upstream() {
    let s = state(&["--message", "hi"]);
    assert_eq!(s.window.width, d(820));
    assert_eq!(s.window.height, d(380));
    assert_eq!(s.button1.text, "OK");
    assert!(s.button1.visible && s.button1.enabled);
    assert!(!s.button2.visible);
    assert!(!s.info_button.visible);
    assert_eq!(s.icon.size, d(150));
    assert!(s.timer.is_none());
}

#[test]
fn title_none_hides_title() {
    assert_eq!(state(&["--title", "none"]).title, None);
    assert_eq!(state(&["--title", "Hi"]).title.as_deref(), Some("Hi"));
}

#[test]
fn button2text_implies_visibility() {
    let s = state(&["--button2text", "Later"]);
    assert!(s.button2.visible);
    assert_eq!(s.button2.text, "Later");
}

#[test]
fn timer_defaults_to_ten_seconds() {
    let s = state(&["--timer"]);
    assert_eq!(s.timer.as_ref().unwrap().seconds, d(10));
    let s = state(&["--timer", "30", "--hidetimerbar"]);
    let t = s.timer.unwrap();
    assert_eq!(t.seconds, d(30));
    assert!(t.hide_bar);
}

#[test]
fn centre_spelling_accepted() {
    let s = state(&["--messagealignment", "centre"]);
    assert_eq!(s.message_alignment, Alignment::Center);
}

#[test]
fn small_and_big_scale_default_window() {
    let s = state(&["--small"]);
    assert_eq!((s.window.width, s.window.height), (d(615), d(285)));
    let s = state(&["--big"]);
    assert_eq!((s.window.width, s.window.height), (d(1025), d(475)));
}

#[test]
fn explicit_size_wins_over_scale() {
    let s = state(&["--small", "--width", "700"]);
    assert_eq!(s.window.width, d(700));
    assert_eq!(s.window.height, d(285));
}

#[test]
fn mini_forces_540_by_128() {
    for args in [&["--mini"][..], &["--style", "mini"][..]] {
        let s = state(args);
        assert!(s.mini);
        assert_eq!((s.window.width, s.window.height), (d(540), d(128)));
    }
}

#[test]
fn quit_key_default_and_override() {
    assert_eq!(state(&["--message", "x"]).quit_key, "q");
    assert_eq!(state(&["--quitkey", "x"]).quit_key, "x");
}

#[test]
fn json_config_feeds_state() {
    let s = state(&["--jsonstring", r#"{"title": "Hello", "ontop": true, "width": 500}"#]);
    assert_eq!(s.title.as_deref(), Some("Hello"));
    assert!(s.window.ontop);
    assert_eq!(s.window.width, d(500));
}

#[test]
fn fractional_sizes_keep_thousandths() {
    let s = state(&["--width", "612.5", "--height", "abc"]);
    assert_eq!(s.window.width, Decimal { thousandths: 612_500 });
    assert_eq!(s.window.height, d(380));
}

#[test]
fn platform_names_the_theme() {
    let cli = parse(&["--title", "x"]);
    let c = Config::load(cli, JsonInput::Absent).unwrap();
    assert_eq!(DialogState::from_config(&c, Platform::Windows).platform, "windows");
    assert_eq!(DialogState::from_config(&c, Platform::MacOs).platform, "macos");
}

#[test]
fn absent_title_shows_the_default_title() {
    let s = state(&["--message", "Please save your work."]);
    assert_eq!(s.title.as_deref(), Some("An Important Message"));
    assert_eq!((s.window.width, s.window.height), (d(820), d(380)));
    assert_eq!(s.button1.text, "OK");
    let s = state(&["--bannerimage", "/b.png", "--bannertitle", "default-title"]);
    assert_eq!(s.banner.unwrap().title.as_deref(), Some("An Important Message"));
}
