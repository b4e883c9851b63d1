use dialog_core::output::{OutputValue, SelectResult, UserInput};

fn sample() -> UserInput {
    UserInput {
        textfields: vec![("Computer Name".into(), "kraken".into())],
        selects: vec![SelectResult {
            name: "Dept".into(),
            selected_value: "HR".into(),
            selected_index: 1,
        }],
        list_selections: vec![("Optional App A".into(), true)],
        checkboxes: vec![("Enable FileVault".into(), false)],
    }
}

fn text(v: Option<&OutputValue>) -> Option<&str> {
    match v {
        Some(OutputValue::Text(s)) => Some(s.as_str()),
        _ => None,
    }
}

#[test]
fn plain_lines_match_upstream_formats() {
    assert_eq!(
        sample().plain_lines(),
        vec![
            "Computer Name : kraken",
            "\"SelectedOption\" : \"HR\"",
            "\"SelectedIndex\" : 1",
            "\"Dept\" : \"HR\"",
            "\"Dept\" index : \"1\"",
            "\"Optional App A\" : \"true\"",
            "\"Enable FileVault\" : \"false\"",
        ]
    );
}

#[test]
fn json_object_matches_upstream_shape() {
    let v = sample().json_object();
    assert_eq!(text(v.get("Computer Name")), Some("kraken"));
    assert_eq!(text(v.get("SelectedOption")), Some("HR"));
    assert!(matches!(v.get("SelectedIndex"), Some(OutputValue::Number(1))));
    assert!(matches!(
        v.get("Dept"),
        Some(OutputValue::Selection { selected_value, selected_index: 1 }) if selected_value == "HR"
    ));
    assert!(matches!(v.get("Optional App A"), Some(OutputValue::Flag(true))));
    assert!(matches!(v.get("Enable FileVault"), Some(OutputValue::Flag(false))));
}

#[test]
fn multiple_selects_skip_legacy_keys() {
    let mut s = sample();
    s.selects.push(SelectResult {
        name: "Site".into(),
        selected_value: "NYC".into(),
        selected_index: 0,
    });
    let v = s.json_object();
    assert!(v.get("SelectedOption").is_none());
    assert!(!s.plain_lines().iter().any(|l| l.contains("SelectedOption")));
}

#[test]
fn unmatched_select_reports_minus_one() {
    let s = UserInput {
        selects: vec![SelectResult {
            name: "X".into(),
            selected_value: String::new(),
            selected_index: -1,
        }],
        ..Default::default()
    };
    assert!(matches!(
        s.json_object().get("X"),
        Some(OutputValue::Selection { selected_index: -1, .. })
    ));
}

#[test]
fn no_input_renders_empty() {
    assert!(UserInput::default().is_empty());
    assert_eq!(UserInput::default().render(false), "");
}

#[test]
fn negative_and_large_indices_print_in_decimal() {
    let s = UserInput {
        selects: vec![
            SelectResult { name: "A".into(), selected_value: "".into(), selected_index: -1 },
            SelectResult { name: "B".into(), selected_value: "z".into(), selected_index: 1234567 },
        ],
        ..Default::default()
    };
    assert_eq!(
        s.render_plain(),
        "\"A\" : \"\"\n\"A\" index : \"-1\"\n\"B\" : \"z\"\n\"B\" index : \"1234567\""
    );
    let one = UserInput { selects: vec![s.selects[0].clone()], ..Default::default() };
    assert_eq!(one.plain_lines()[1], "\"SelectedIndex\" : -1");
}

#[test]
fn later_json_key_replaces_earlier() {
    let s = UserInput {
        textfields: vec![("Same".into(), "text".into())],
        checkboxes: vec![("Same".into(), true)],
        ..Default::default()
    };
    let v = s.json_object();
    assert_eq!(v.entries.len(), 2);
    assert!(matches!(v.get("Same"), Some(OutputValue::Flag(true))));
}

#[test]
fn json_render_prints_the_object_pretty() {
    let out = sample().render(true);
    let v: serde_json::Value = serde_json::from_str(&out).expect("valid JSON");
    assert_eq!(v["Computer Name"], "kraken");
    assert_eq!(v["SelectedOption"], "HR");
    assert_eq!(v["SelectedIndex"], 1);
    assert_eq!(v["Dept"]["selectedValue"], "HR");
    assert_eq!(v["Dept"]["selectedIndex"], 1);
    assert_eq!(v["Optional App A"], true);
    assert_eq!(v["Enable FileVault"], false);
    assert!(out.contains("\n  \"Computer Name\": \"kraken\""));
    assert_eq!(UserInput::default().render(true), "{}");
}
