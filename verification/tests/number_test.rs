use dialog_core::commands::{apply, fits, parse_line, Command, ProgressCmd};
use dialog_core::compat::Platform;
use dialog_core::config::{Config, JsonInput};
use dialog_core::number::{parse_decimal, Decimal};
use dialog_core::parser::parse;
use dialog_core::state::DialogState;

fn read(s: &str) -> Option<i64> {
    let v: Vec<char> = s.chars().collect();
    parse_decimal(&v, 0, v.len()).map(|d| d.thousandths)
}

fn fresh(args: &[&str]) -> DialogState {
    DialogState::from_config(&Config::load(parse(args), JsonInput::Absent).unwrap(), Platform::Linux)
}

#[test]
fn plain_decimals_read_in_thousandths() {
    assert_eq!(read("612.5"), Some(612_500));
    assert_eq!(read("-3"), Some(-3_000));
    assert_eq!(read("+.25"), Some(250));
    assert_eq!(read("7."), Some(7_000));
    assert_eq!(read("1.23456"), Some(1_234));
    assert_eq!(read("-0.0009"), Some(0));
}

#[test]
fn exponents_move_the_point() {
    assert_eq!(read("1e3"), Some(1_000_000));
    assert_eq!(read("2.5E-1"), Some(250));
    assert_eq!(read("-1.5e+2"), Some(-150_000));
    assert_eq!(read(".5e1"), Some(5_000));
    assert_eq!(read("1e-4"), Some(0));
    assert_eq!(read("12345e-5"), Some(123));
    assert_eq!(read("0e99999999999999999999999"), Some(0));
    assert_eq!(read("5e-99999999999999999999999"), Some(0));
}

#[test]
fn malformed_numbers_are_refused() {
    for s in ["", "+", "-", ".", "e3", "1e", "1e+", "1.2.3", "1e2.5", "abc", "1ee2", " 1", "inf", "NaN"] {
        assert_eq!(read(s), None, "{s:?}");
    }
}

#[test]
fn magnitudes_past_the_range_are_refused() {
    assert_eq!(read("9000000000000000.999"), Some(9_000_000_000_000_000_999));
    assert_eq!(read("9000000000000001"), None);
    assert_eq!(read("9.000000000000001e15"), None);
    assert_eq!(read("1e16"), None);
    assert_eq!(read("-1e400"), None);
}

#[test]
fn exponent_values_reach_options_and_commands() {
    let s = fresh(&["--width", "1e3", "--height", "4.5E2"]);
    assert_eq!(s.window.width, Decimal { thousandths: 1_000_000 });
    assert_eq!(s.window.height, Decimal { thousandths: 450_000 });
    assert_eq!(parse_line("iconsize: 2e2"), Some(Command::IconSize(Decimal { thousandths: 200_000 })));
}

#[test]
fn fits_guards_progress_steps_at_the_edge() {
    let mut s = fresh(&["--progress", "10"]);
    let big = Command::Progress(ProgressCmd::SetTo(Decimal { thousandths: i64::MAX }));
    assert!(fits(&s, &big));
    apply(&mut s, &big);
    let down = Command::Progress(ProgressCmd::Decrement(Decimal { thousandths: -1 }));
    assert!(!fits(&s, &down));
    let up = Command::Progress(ProgressCmd::Increment(Decimal { thousandths: 1 }));
    assert!(fits(&s, &up));
    assert!(fits(&s, &parse_line("title: x").unwrap()));
}
