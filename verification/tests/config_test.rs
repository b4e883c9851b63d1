use dialog_core::config::{json_input_of, json_source, Config, Json, JsonInput, JsonSource};
use dialog_core::parser::parse;

/// Loads a configuration the way the shell does; a `--jsonfile` here never
/// exists, so it reads as unreadable.
fn load(args: &[&str]) -> Result<Config, dialog_core::config::JsonError> {
    let cli = parse(args);
    let input = match json_source(&cli) {
        None => JsonInput::Absent,
        Some(JsonSource::File(path)) => JsonInput::Unreadable(path),
        Some(JsonSource::Text(text)) => json_input_of(&text),
    };
    Config::load(cli, input)
}

fn config(args: &[&str]) -> Config {
    load(args).unwrap()
}

#[test]
fn jsonstring_drives_the_dialog() {
    let c = config(&[
        "--jsonstring",
        r#"{"title": "Hello", "message": "World", "button1text": "Done"}"#,
    ]);
    assert_eq!(c.value("title").unwrap(), "Hello");
    assert_eq!(c.value("message").unwrap(), "World");
    assert_eq!(c.value("button1text").unwrap(), "Done");
}

#[test]
fn cli_wins_over_json() {
    let c = config(&["--title", "CLI", "--jsonstring", r#"{"title": "JSON"}"#]);
    assert_eq!(c.value("title").unwrap(), "CLI");
}

#[test]
fn json_bool_flags_count_as_present() {
    let c = config(&["--jsonstring", r#"{"ontop": true, "blurscreen": false}"#]);
    assert!(c.present("ontop"));
    assert!(!c.present("blurscreen"));
}

#[test]
fn json_numbers_stringify() {
    let c = config(&["--jsonstring", r#"{"width": 500}"#]);
    assert_eq!(c.value("width").unwrap(), "500");
}

#[test]
fn defaults_still_apply_under_json() {
    let c = config(&["--jsonstring", r#"{"title": "X"}"#]);
    assert_eq!(c.value("button1text").unwrap(), "OK");
}

#[test]
fn structured_arrays_pass_through() {
    let c = config(&["--jsonstring", r#"{"textfield": [{"title": "Name", "required": true}]}"#]);
    let fields = c.json_array("textfield").unwrap();
    match &fields[0] {
        Json::Object(entries) => {
            let title = entries.iter().find(|(k, _)| k == "title").map(|(_, v)| v);
            assert!(matches!(title, Some(Json::Str(s)) if s == "Name"));
        }
        _ => panic!("expected an object"),
    }
}

#[test]
fn missing_jsonfile_maps_to_exit_202() {
    let err = load(&["--jsonfile", "/nonexistent.json"]).unwrap_err();
    assert_eq!(err.exit_code(), 202);
    assert_eq!(err.message(), "ERROR: File not found : /nonexistent.json");
}

#[test]
fn bad_json_reports_import_failed() {
    let err = load(&["--jsonstring", "{not json"]).unwrap_err();
    assert_eq!(err.exit_code(), 202);
    assert_eq!(err.message(), "JSON import failed");
}

#[test]
fn jsonfile_wins_over_jsonstring() {
    let cli = parse(&["--jsonstring", "{}", "--jsonfile", "/a.json"]);
    assert!(matches!(json_source(&cli), Some(JsonSource::File(p)) if p == "/a.json"));
    assert!(json_source(&parse(&["--title", "x"])).is_none());
}

#[test]
fn json_false_bool_reads_as_text_false() {
    let c = config(&["--jsonstring", r#"{"title": false, "ontop": "yes"}"#]);
    assert_eq!(c.value("title").unwrap(), "false");
    assert!(c.present("ontop"));
    assert!(c.value("nosuchoption").is_none());
}

#[test]
fn json_text_reads_node_for_node() {
    match json_input_of(r#"{"a": [1, 2.5, true, null], "b": {"c": "d"}}"#) {
        JsonInput::Parsed(Json::Object(entries)) => {
            assert_eq!(entries.len(), 2);
            assert_eq!(entries[0].0, "a");
            match &entries[0].1 {
                Json::Array(xs) => {
                    assert!(matches!(&xs[0], Json::Number(n) if n == "1"));
                    assert!(matches!(&xs[1], Json::Number(n) if n == "2.5"));
                    assert!(matches!(xs[2], Json::Bool(true)));
                    assert!(matches!(xs[3], Json::Null));
                }
                _ => panic!("array expected"),
            }
            match &entries[1].1 {
                Json::Object(inner) => {
                    assert_eq!(inner[0].0, "c");
                    assert!(matches!(&inner[0].1, Json::Str(s) if s == "d"));
                }
                _ => panic!("object expected"),
            }
        }
        _ => panic!("object expected"),
    }
}

#[test]
fn malformed_json_text_is_invalid() {
    assert!(matches!(json_input_of("{\"title\": "), JsonInput::Invalid(_)));
    assert!(matches!(json_input_of(""), JsonInput::Invalid(_)));
    assert!(matches!(load(&["--jsonstring", "[1,"]), Err(dialog_core::config::JsonError::Parse(_))));
}
