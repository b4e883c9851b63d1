//! The input elements and list rows of a dialog, read from repeated CLI
//! specs (`--textfield`, `--checkbox`, `--selecttitle`/`--selectvalues`,
//! `--listitem`) followed by the matching JSON arrays.

use crate::config::{object_get, spec_json_array, spec_value, Config, Json};
use crate::state::{
    boxes_view, fields_view, items_view, new_item, selects_view, strings_view, CheckboxState,
    CheckboxV, ListItemState, ListItemV, SelectState, SelectV, TextFieldState, TextFieldV,
};
use crate::suboptions::{assoc_last, parse_spec, spec_parse_spec, SubModel};
use crate::text::{chars_of, split_on, split_ranges, string_of, trim, trim_bounds};
use vstd::prelude::*;
use vstd::string::*;

verus! {

broadcast use vstd::string::group_string_axioms;

/// The sub-option value for `key`.
pub open spec fn sub_get(m: SubModel, key: Seq<char>) -> Option<Seq<char>> {
    assoc_last(m.values, key)
}

/// Whether the bare sub-option flag `key` was given.
pub open spec fn sub_flag(m: SubModel, key: Seq<char>) -> bool {
    m.flags.contains(key)
}

pub open spec fn or_else(o: Option<Seq<char>>, d: Seq<char>) -> Seq<char> {
    match o {
        Some(x) => x,
        None => d,
    }
}

/// The string a JSON object holds for `key`, if it is a string.
pub open spec fn json_str(o: Seq<(String, Json)>, key: Seq<char>) -> Option<Seq<char>> {
    match object_get(o, key) {
        Some(Json::Str(s)) => Some(s@),
        _ => None,
    }
}

/// The bool a JSON object holds for `key`; false when absent or not a bool.
pub open spec fn json_bool(o: Seq<(String, Json)>, key: Seq<char>) -> bool {
    match object_get(o, key) {
        Some(Json::Bool(b)) => b,
        _ => false,
    }
}

/// The strings among JSON values, in order.
pub open spec fn json_strings(a: Seq<Json>) -> Seq<Seq<char>>
    decreases a.len(),
{
    if a.len() == 0 {
        Seq::empty()
    } else {
        let rest = json_strings(a.drop_last());
        match a.last() {
            Json::Str(s) => rest.push(s@),
            _ => rest,
        }
    }
}

/// A textfield from `"Title,required,secure,prompt=..,value=..,regex=..,regexerror=..,name=.."`.
pub open spec fn textfield_from_spec(spec: Seq<char>) -> TextFieldV {
    let m = spec_parse_spec(spec);
    TextFieldV {
        name: or_else(sub_get(m, "name"@), m.title),
        title: m.title,
        value: or_else(sub_get(m, "value"@), Seq::empty()),
        prompt: sub_get(m, "prompt"@),
        secure: sub_flag(m, "secure"@),
        required: sub_flag(m, "required"@),
        regex: sub_get(m, "regex"@),
        regex_error: sub_get(m, "regexerror"@),
        is_date: sub_flag(m, "isdate"@),
    }
}

/// A textfield from a JSON string (its title) or object.
pub open spec fn textfield_from_json(v: Json) -> Option<TextFieldV> {
    match v {
        Json::Str(title) => Some(
            TextFieldV {
                name: title@,
                title: title@,
                value: Seq::empty(),
                prompt: None,
                secure: false,
                required: false,
                regex: None,
                regex_error: None,
                is_date: false,
            },
        ),
        Json::Object(o) => match json_str(o@, "title"@) {
            Some(title) => Some(
                TextFieldV {
                    name: or_else(json_str(o@, "name"@), title),
                    title,
                    value: or_else(json_str(o@, "value"@), Seq::empty()),
                    prompt: json_str(o@, "prompt"@),
                    secure: json_bool(o@, "secure"@),
                    required: json_bool(o@, "required"@),
                    regex: json_str(o@, "regex"@),
                    regex_error: json_str(o@, "regexerror"@),
                    is_date: json_bool(o@, "isdate"@),
                },
            ),
            None => None,
        },
        _ => None,
    }
}

pub open spec fn json_text_fields(a: Seq<Json>) -> Seq<TextFieldV>
    decreases a.len(),
{
    if a.len() == 0 {
        Seq::empty()
    } else {
        let rest = json_text_fields(a.drop_last());
        match textfield_from_json(a.last()) {
            Some(f) => rest.push(f),
            None => rest,
        }
    }
}

/// Textfields for each spec, in order.
pub open spec fn cli_text_fields(specs: Seq<Seq<char>>) -> Seq<TextFieldV>
    decreases specs.len(),
{
    if specs.len() == 0 {
        Seq::empty()
    } else {
        cli_text_fields(specs.drop_last()).push(textfield_from_spec(specs.last()))
    }
}

/// Textfields from repeated `--textfield` specs, then the JSON array.
pub open spec fn spec_text_fields(c: &Config) -> Seq<TextFieldV> {
    cli_text_fields(c.cli.model().values("textfield"@)) + match spec_json_array(c, "textfield"@) {
        Some(a) => json_text_fields(a),
        None => Seq::empty(),
    }
}

/// The `--checkboxstyle`, `checkbox` by default.
pub open spec fn checkbox_style(c: &Config) -> Seq<char> {
    or_else(spec_value(c, "checkboxstyle"@), "checkbox"@)
}

/// A checkbox from `"Label,checked,disabled,name=.."`.
pub open spec fn checkbox_from_spec(spec: Seq<char>, style: Seq<char>) -> CheckboxV {
    let m = spec_parse_spec(spec);
    CheckboxV {
        name: or_else(sub_get(m, "name"@), m.title),
        label: m.title,
        checked: sub_flag(m, "checked"@),
        disabled: sub_flag(m, "disabled"@),
        style,
    }
}

/// A checkbox from a JSON object with a string `label`.
pub open spec fn checkbox_from_json(v: Json, style: Seq<char>) -> Option<CheckboxV> {
    match v {
        Json::Object(o) => match json_str(o@, "label"@) {
            Some(label) => Some(
                CheckboxV {
                    name: or_else(json_str(o@, "name"@), label),
                    label,
                    checked: json_bool(o@, "checked"@),
                    disabled: json_bool(o@, "disabled"@),
                    style,
                },
            ),
            None => None,
        },
        _ => None,
    }
}

pub open spec fn json_checkboxes(a: Seq<Json>, style: Seq<char>) -> Seq<CheckboxV>
    decreases a.len(),
{
    if a.len() == 0 {
        Seq::empty()
    } else {
        let rest = json_checkboxes(a.drop_last(), style);
        match checkbox_from_json(a.last(), style) {
            Some(b) => rest.push(b),
            None => rest,
        }
    }
}

/// Checkboxes for each spec, in order.
pub open spec fn cli_checkboxes(specs: Seq<Seq<char>>, style: Seq<char>) -> Seq<CheckboxV>
    decreases specs.len(),
{
    if specs.len() == 0 {
        Seq::empty()
    } else {
        cli_checkboxes(specs.drop_last(), style).push(checkbox_from_spec(specs.last(), style))
    }
}

/// Checkboxes from repeated `--checkbox` specs, then the JSON array.
pub open spec fn spec_checkboxes(c: &Config) -> Seq<CheckboxV> {
    cli_checkboxes(c.cli.model().values("checkbox"@), checkbox_style(c)) + match spec_json_array(c, "checkbox"@) {
        Some(a) => json_checkboxes(a, checkbox_style(c)),
        None => Seq::empty(),
    }
}

/// The trimmed comma-separated values of a `--selectvalues`.
pub open spec fn select_values(v: Seq<char>) -> Seq<Seq<char>> {
    split_on(v, ',').map_values(|x: Seq<char>| trim(x))
}

/// Select `i` of the CLI: `--selecttitle`, paired by position with
/// `--selectvalues`, `--selectdefault` and `--selectstyle`.
pub open spec fn select_from_cli(c: &Config, i: int) -> SelectV {
    let titles = c.cli.model().values("selecttitle"@);
    let values = c.cli.model().values("selectvalues"@);
    let defaults = c.cli.model().values("selectdefault"@);
    let styles = c.cli.model().values("selectstyle"@);
    let m = spec_parse_spec(titles[i]);
    SelectV {
        name: or_else(sub_get(m, "name"@), m.title),
        title: m.title,
        values: if i < values.len() {
            select_values(values[i])
        } else {
            Seq::empty()
        },
        selected: if i < defaults.len() {
            defaults[i]
        } else {
            Seq::empty()
        },
        required: sub_flag(m, "required"@),
        style: if i < styles.len() {
            styles[i]
        } else if sub_flag(m, "radio"@) {
            "radio"@
        } else {
            "dropdown"@
        },
    }
}

/// A select from a JSON `selectitems` object with a non-empty string title.
pub open spec fn select_from_json(v: Json) -> Option<SelectV> {
    match v {
        Json::Object(o) => {
            let title = or_else(json_str(o@, "title"@), Seq::empty());
            if title.len() == 0 {
                None
            } else {
                Some(
                    SelectV {
                        name: or_else(json_str(o@, "name"@), title),
                        title,
                        values: match object_get(o@, "values"@) {
                            Some(Json::Array(a)) => json_strings(a@),
                            _ => Seq::empty(),
                        },
                        selected: or_else(json_str(o@, "default"@), Seq::empty()),
                        required: json_bool(o@, "required"@),
                        style: or_else(json_str(o@, "style"@), "dropdown"@),
                    },
                )
            }
        },
        _ => None,
    }
}

pub open spec fn json_selects(a: Seq<Json>) -> Seq<SelectV>
    decreases a.len(),
{
    if a.len() == 0 {
        Seq::empty()
    } else {
        let rest = json_selects(a.drop_last());
        match select_from_json(a.last()) {
            Some(s) => rest.push(s),
            None => rest,
        }
    }
}

/// Selects from the CLI, then the JSON `selectitems` array.
pub open spec fn spec_selects(c: &Config) -> Seq<SelectV> {
    Seq::new(
        c.cli.model().values("selecttitle"@).len(),
        |i: int| select_from_cli(c, i),
    ) + match spec_json_array(c, "selectitems"@) {
        Some(a) => json_selects(a),
        None => Seq::empty(),
    }
}

/// A list row from `"Title,status=..,statustext=..,icon=..,subtitle=.."`.
pub open spec fn item_from_spec(spec: Seq<char>) -> ListItemV {
    let m = spec_parse_spec(spec);
    ListItemV {
        title: m.title,
        subtitle: sub_get(m, "subtitle"@),
        icon: sub_get(m, "icon"@),
        status: or_else(sub_get(m, "status"@), Seq::empty()),
        status_text: or_else(sub_get(m, "statustext"@), Seq::empty()),
        progress: None,
        selected: false,
    }
}

/// A list row from a JSON string or object; rows without a title are dropped.
pub open spec fn item_from_json(v: Json) -> Option<ListItemV> {
    let item = match v {
        Json::Str(s) => Some(new_item(s@)),
        Json::Object(o) => Some(
            ListItemV {
                title: or_else(json_str(o@, "title"@), Seq::empty()),
                subtitle: json_str(o@, "subtitle"@),
                icon: json_str(o@, "icon"@),
                status: or_else(json_str(o@, "status"@), Seq::empty()),
                status_text: or_else(json_str(o@, "statustext"@), Seq::empty()),
                progress: None,
                selected: false,
            },
        ),
        _ => None,
    };
    match item {
        Some(i) => if i.title.len() == 0 {
            None
        } else {
            Some(i)
        },
        None => None,
    }
}

pub open spec fn json_items(a: Seq<Json>) -> Seq<ListItemV>
    decreases a.len(),
{
    if a.len() == 0 {
        Seq::empty()
    } else {
        let rest = json_items(a.drop_last());
        match item_from_json(a.last()) {
            Some(i) => rest.push(i),
            None => rest,
        }
    }
}

/// List rows for each spec, in order.
pub open spec fn cli_items(specs: Seq<Seq<char>>) -> Seq<ListItemV>
    decreases specs.len(),
{
    if specs.len() == 0 {
        Seq::empty()
    } else {
        cli_items(specs.drop_last()).push(item_from_spec(specs.last()))
    }
}

/// List rows from repeated `--listitem` specs, then the JSON `listitem` array.
pub open spec fn spec_list_items(c: &Config) -> Seq<ListItemV> {
    cli_items(c.cli.model().values("listitem"@)) + match spec_json_array(c, "listitem"@) {
        Some(a) => json_items(a),
        None => Seq::empty(),
    }
}

// ── executable parts ────────────────────────────────────────────────────

fn opt_string(o: Option<&str>) -> (r: Option<String>)
    ensures
        r matches Some(s) ==> o matches Some(x) && s@ == x@,
        r is None ==> o is None,
{
    match o {
        Some(x) => Some(String::from_str(x)),
        None => None,
    }
}

fn string_or_empty(o: Option<&str>) -> (r: String)
    ensures
        r@ == (match o {
            Some(x) => x@,
            None => Seq::<char>::empty(),
        }),
{
    match o {
        Some(x) => String::from_str(x),
        None => String::new(),
    }
}

fn string_or(o: Option<&str>, d: &str) -> (r: String)
    ensures
        r@ == (match o {
            Some(x) => x@,
            None => d@,
        }),
{
    match o {
        Some(x) => String::from_str(x),
        None => String::from_str(d),
    }
}

/// The string a JSON object holds for `key`.
fn json_str_of(o: &Vec<(String, Json)>, key: &str) -> (r: Option<String>)
    ensures
        r matches Some(s) ==> json_str(o@, key@) == Some(s@),
        r is None ==> json_str(o@, key@) is None,
{
    match crate::config::object_lookup(o, key) {
        Some(Json::Str(s)) => Some(s.clone()),
        _ => None,
    }
}

/// The bool a JSON object holds for `key`.
fn json_bool_of(o: &Vec<(String, Json)>, key: &str) -> (r: bool)
    ensures
        r == json_bool(o@, key@),
{
    match crate::config::object_lookup(o, key) {
        Some(Json::Bool(b)) => *b,
        _ => false,
    }
}

fn textfield_of_spec(spec: &String) -> (f: TextFieldState)
    ensures
        f@ == textfield_from_spec(spec@),
{
    let s = parse_spec(spec.as_str());
    TextFieldState {
        name: string_or(s.get("name"), s.title.as_str()),
        title: s.title.clone(),
        value: string_or_empty(s.get("value")),
        prompt: opt_string(s.get("prompt")),
        secure: s.flag("secure"),
        required: s.flag("required"),
        regex: opt_string(s.get("regex")),
        regex_error: opt_string(s.get("regexerror")),
        is_date: s.flag("isdate"),
    }
}

fn textfield_of_json(v: &Json) -> (r: Option<TextFieldState>)
    ensures
        r matches Some(f) ==> textfield_from_json(*v) == Some(f@),
        r is None ==> textfield_from_json(*v) is None,
{
    match v {
        Json::Str(title) => Some(
            TextFieldState {
                name: title.clone(),
                title: title.clone(),
                value: String::new(),
                prompt: None,
                secure: false,
                required: false,
                regex: None,
                regex_error: None,
                is_date: false,
            },
        ),
        Json::Object(o) => match json_str_of(o, "title") {
            Some(title) => {
                let name = match json_str_of(o, "name") {
                    Some(n) => n,
                    None => title.clone(),
                };
                Some(
                    TextFieldState {
                        name,
                        title,
                        value: match json_str_of(o, "value") {
                            Some(x) => x,
                            None => String::new(),
                        },
                        prompt: json_str_of(o, "prompt"),
                        secure: json_bool_of(o, "secure"),
                        required: json_bool_of(o, "required"),
                        regex: json_str_of(o, "regex"),
                        regex_error: json_str_of(o, "regexerror"),
                        is_date: json_bool_of(o, "isdate"),
                    },
                )
            },
            None => None,
        },
        _ => None,
    }
}

/// Textfields from repeated `--textfield` specs and/or the JSON array.
pub fn parse_text_fields(config: &Config) -> (r: Vec<TextFieldState>)
    ensures
        fields_view(r@) == spec_text_fields(config),
{
    let specs = config.cli.values("textfield");
    let ghost sv = config.cli.model().values("textfield"@);
    let mut fields: Vec<TextFieldState> = Vec::new();
    let mut i: usize = 0;
    while i < specs.len()
        invariant
            i <= specs.len(),
            strings_view(specs@) == sv,
            fields_view(fields@) == cli_text_fields(sv.take(i as int)),
        decreases specs.len() - i,
    {
        let t = textfield_of_spec(&specs[i]);
        let ghost before = fields@;
        fields.push(t);
        assert(sv[i as int] == specs@[i as int]@);
        assert(fields_view(fields@) =~= fields_view(before).push(t@));
        assert(sv.take(i + 1).drop_last() =~= sv.take(i as int));
        assert(sv.take(i + 1).last() == sv[i as int]);
        i = i + 1;
    }
    assert(sv.take(specs.len() as int) =~= sv);
    let ghost cli_part = fields_view(fields@);
    match config.json_array("textfield") {
        Some(arr) => {
            let mut j: usize = 0;
            while j < arr.len()
                invariant
                    j <= arr.len(),
                    fields_view(fields@) == cli_part + json_text_fields(arr@.take(j as int)),
                decreases arr.len() - j,
            {
                assert(arr@.take(j + 1).drop_last() =~= arr@.take(j as int));
                assert(arr@.take(j + 1).last() == arr@[j as int]);
                match textfield_of_json(&arr[j]) {
                    Some(t) => {
                        let ghost before = fields@;
                        fields.push(t);
                        assert(fields_view(fields@) =~= fields_view(before).push(t@));
                    },
                    None => {},
                }
                j = j + 1;
            }
            assert(arr@.take(arr.len() as int) =~= arr@);
        },
        None => {
            assert(fields_view(fields@) =~= cli_part + Seq::<TextFieldV>::empty());
        },
    }
    fields
}

/// Checkboxes from repeated `--checkbox` specs and/or JSON array.
pub fn parse_checkboxes(config: &Config) -> (r: Vec<CheckboxState>)
    ensures
        boxes_view(r@) == spec_checkboxes(config),
{
    let style = match config.value("checkboxstyle") {
        Some(v) => v,
        None => String::from_str("checkbox"),
    };
    assert(style@ == checkbox_style(config));
    let specs = config.cli.values("checkbox");
    let ghost sv = config.cli.model().values("checkbox"@);
    let mut boxes: Vec<CheckboxState> = Vec::new();
    let mut i: usize = 0;
    while i < specs.len()
        invariant
            i <= specs.len(),
            strings_view(specs@) == sv,
            style@ == checkbox_style(config),
            boxes_view(boxes@) == cli_checkboxes(sv.take(i as int), style@),
        decreases specs.len() - i,
    {
        let s = parse_spec(specs[i].as_str());
        let b = CheckboxState {
            name: string_or(s.get("name"), s.title.as_str()),
            label: s.title.clone(),
            checked: s.flag("checked"),
            disabled: s.flag("disabled"),
            style: style.clone(),
        };
        let ghost before = boxes@;
        boxes.push(b);
        assert(sv[i as int] == specs@[i as int]@);
        assert(b@ == checkbox_from_spec(sv[i as int], style@));
        assert(boxes_view(boxes@) =~= boxes_view(before).push(b@));
        assert(sv.take(i + 1).drop_last() =~= sv.take(i as int));
        assert(sv.take(i + 1).last() == sv[i as int]);
        i = i + 1;
    }
    assert(sv.take(specs.len() as int) =~= sv);
    let ghost cli_part = boxes_view(boxes@);
    match config.json_array("checkbox") {
        Some(arr) => {
            let mut j: usize = 0;
            while j < arr.len()
                invariant
                    j <= arr.len(),
                    style@ == checkbox_style(config),
                    boxes_view(boxes@) == cli_part + json_checkboxes(arr@.take(j as int), style@),
                decreases arr.len() - j,
            {
                assert(arr@.take(j + 1).drop_last() =~= arr@.take(j as int));
                assert(arr@.take(j + 1).last() == arr@[j as int]);
                match &arr[j] {
                    Json::Object(o) => match json_str_of(o, "label") {
                        Some(label) => {
                            let name = match json_str_of(o, "name") {
                                Some(n) => n,
                                None => label.clone(),
                            };
                            let b = CheckboxState {
                                name,
                                label,
                                checked: json_bool_of(o, "checked"),
                                disabled: json_bool_of(o, "disabled"),
                                style: style.clone(),
                            };
                            let ghost before = boxes@;
                            boxes.push(b);
                            assert(boxes_view(boxes@) =~= boxes_view(before).push(b@));
                        },
                        None => {},
                    },
                    _ => {},
                }
                j = j + 1;
            }
            assert(arr@.take(arr.len() as int) =~= arr@);
        },
        None => {
            assert(boxes_view(boxes@) =~= cli_part + Seq::<CheckboxV>::empty());
        },
    }
    boxes
}

/// The trimmed pieces of `v.split(',')`.
fn split_trimmed(v: &str) -> (r: Vec<String>)
    ensures
        strings_view(r@) == select_values(v@),
{
    let c = chars_of(v);
    let n = c.len();
    assert(c@.subrange(0, n as int) =~= v@);
    let ranges = split_ranges(&c, 0, n, ',');
    let ghost parts = split_on(v@, ',');
    let mut r: Vec<String> = Vec::new();
    let mut i: usize = 0;
    while i < ranges.len()
        invariant
            i <= ranges.len() == parts.len(),
            n == c.len(),
            parts == split_on(c@.subrange(0, n as int), ','),
            forall|k: int|
                0 <= k < ranges@.len() ==> 0 <= (#[trigger] ranges@[k]).0 <= ranges@[k].1 <= n
                    && c@.subrange(ranges@[k].0 as int, ranges@[k].1 as int) == parts[k],
            strings_view(r@) == parts.take(i as int).map_values(|x: Seq<char>| trim(x)),
        decreases ranges.len() - i,
    {
        let (a, b) = ranges[i];
        let (ta, tb) = trim_bounds(&c, a, b);
        let t = string_of(&c, ta, tb);
        let ghost before = r@;
        r.push(t);
        assert(strings_view(r@) =~= strings_view(before).push(t@));
        assert(parts.take(i + 1).map_values(|x: Seq<char>| trim(x)) =~= parts.take(
            i as int,
        ).map_values(|x: Seq<char>| trim(x)).push(trim(parts[i as int])));
        i = i + 1;
    }
    assert(parts.take(ranges.len() as int) =~= parts);
    r
}

/// The strings among a JSON array's values.
fn strings_of_json(a: &Vec<Json>) -> (r: Vec<String>)
    ensures
        strings_view(r@) == json_strings(a@),
{
    let mut r: Vec<String> = Vec::new();
    let mut j: usize = 0;
    while j < a.len()
        invariant
            j <= a.len(),
            strings_view(r@) == json_strings(a@.take(j as int)),
        decreases a.len() - j,
    {
        assert(a@.take(j + 1).drop_last() =~= a@.take(j as int));
        assert(a@.take(j + 1).last() == a@[j as int]);
        match &a[j] {
            Json::Str(s) => {
                let ghost before = r@;
                r.push(s.clone());
                assert(strings_view(r@) =~= strings_view(before).push(s@));
            },
            _ => {},
        }
        j = j + 1;
    }
    assert(a@.take(a.len() as int) =~= a@);
    r
}

fn select_of_json(v: &Json) -> (r: Option<SelectState>)
    ensures
        r matches Some(s) ==> select_from_json(*v) == Some(s@),
        r is None ==> select_from_json(*v) is None,
{
    match v {
        Json::Object(o) => {
            let title = match json_str_of(o, "title") {
                Some(t) => t,
                None => String::new(),
            };
            if title.as_str().unicode_len() == 0 {
                return None;
            }
            let values = match crate::config::object_lookup(o, "values") {
                Some(Json::Array(a)) => strings_of_json(a),
                _ => Vec::new(),
            };
            assert(strings_view(Seq::<String>::empty()) =~= Seq::<Seq<char>>::empty());
            let name = match json_str_of(o, "name") {
                Some(n) => n,
                None => title.clone(),
            };
            Some(
                SelectState {
                    name,
                    title,
                    values,
                    selected: match json_str_of(o, "default") {
                        Some(d) => d,
                        None => String::new(),
                    },
                    required: json_bool_of(o, "required"),
                    style: match json_str_of(o, "style") {
                        Some(st) => st,
                        None => String::from_str("dropdown"),
                    },
                },
            )
        },
        _ => None,
    }
}

/// Selects from paired `--selecttitle`/`--selectvalues`/`--selectdefault`
/// (positionally matched) and/or the JSON `selectitems` array.
pub fn parse_selects(config: &Config) -> (r: Vec<SelectState>)
    ensures
        selects_view(r@) == spec_selects(config),
{
    let titles = config.cli.values("selecttitle");
    let values = config.cli.values("selectvalues");
    let defaults = config.cli.values("selectdefault");
    let styles = config.cli.values("selectstyle");
    let ghost tv = config.cli.model().values("selecttitle"@);
    let ghost vv = config.cli.model().values("selectvalues"@);
    let ghost dv = config.cli.model().values("selectdefault"@);
    let ghost stv = config.cli.model().values("selectstyle"@);
    let mut selects: Vec<SelectState> = Vec::new();
    let mut i: usize = 0;
    while i < titles.len()
        invariant
            i <= titles.len(),
            strings_view(titles@) == tv,
            strings_view(values@) == vv,
            strings_view(defaults@) == dv,
            strings_view(styles@) == stv,
            tv == config.cli.model().values("selecttitle"@),
            vv == config.cli.model().values("selectvalues"@),
            dv == config.cli.model().values("selectdefault"@),
            stv == config.cli.model().values("selectstyle"@),
            selects@.len() == i,
            forall|k: int| 0 <= k < i ==> (#[trigger] selects@[k])@ == select_from_cli(config, k),
        decreases titles.len() - i,
    {
        let s = parse_spec(titles[i].as_str());
        assert(tv[i as int] == titles@[i as int]@);
        let vals = if i < values.len() {
            assert(vv[i as int] == values@[i as int]@);
            split_trimmed(values[i].as_str())
        } else {
            let e: Vec<String> = Vec::new();
            assert(strings_view(e@) =~= Seq::<Seq<char>>::empty());
            e
        };
        let style = if i < styles.len() {
            assert(stv[i as int] == styles@[i as int]@);
            styles[i].clone()
        } else if s.flag("radio") {
            String::from_str("radio")
        } else {
            String::from_str("dropdown")
        };
        let selected = if i < defaults.len() {
            assert(dv[i as int] == defaults@[i as int]@);
            defaults[i].clone()
        } else {
            String::new()
        };
        let st = SelectState {
            name: string_or(s.get("name"), s.title.as_str()),
            title: s.title.clone(),
            values: vals,
            selected,
            required: s.flag("required"),
            style,
        };
        assert(st@ == select_from_cli(config, i as int));
        selects.push(st);
        i = i + 1;
    }
    let ghost cli_part = selects_view(selects@);
    assert(cli_part =~= Seq::new(tv.len(), |k: int| select_from_cli(config, k)));
    match config.json_array("selectitems") {
        Some(arr) => {
            let mut j: usize = 0;
            while j < arr.len()
                invariant
                    j <= arr.len(),
                    selects_view(selects@) == cli_part + json_selects(arr@.take(j as int)),
                decreases arr.len() - j,
            {
                assert(arr@.take(j + 1).drop_last() =~= arr@.take(j as int));
                assert(arr@.take(j + 1).last() == arr@[j as int]);
                match select_of_json(&arr[j]) {
                    Some(st) => {
                        let ghost before = selects@;
                        selects.push(st);
                        assert(selects_view(selects@) =~= selects_view(before).push(st@));
                    },
                    None => {},
                }
                j = j + 1;
            }
            assert(arr@.take(arr.len() as int) =~= arr@);
        },
        None => {
            assert(selects_view(selects@) =~= cli_part + Seq::<SelectV>::empty());
        },
    }
    selects
}

fn item_of_json(v: &Json) -> (r: Option<ListItemState>)
    ensures
        r matches Some(i) ==> item_from_json(*v) == Some(i@),
        r is None ==> item_from_json(*v) is None,
{
    let item = match v {
        Json::Str(s) => ListItemState::new(s.clone()),
        Json::Object(o) => ListItemState {
            title: match json_str_of(o, "title") {
                Some(t) => t,
                None => String::new(),
            },
            subtitle: json_str_of(o, "subtitle"),
            icon: json_str_of(o, "icon"),
            status: match json_str_of(o, "status") {
                Some(t) => t,
                None => String::new(),
            },
            status_text: match json_str_of(o, "statustext") {
                Some(t) => t,
                None => String::new(),
            },
            progress: None,
            selected: false,
        },
        _ => return None,
    };
    if item.title.as_str().unicode_len() == 0 {
        return None;
    }
    Some(item)
}

/// List items from repeated `--listitem` specs and/or the JSON `listitem`
/// array (strings or {title,subtitle,icon,status,statustext} objects).
pub fn parse_list_items(config: &Config) -> (r: Vec<ListItemState>)
    ensures
        items_view(r@) == spec_list_items(config),
{
    let specs = config.cli.values("listitem");
    let ghost sv = config.cli.model().values("listitem"@);
    let mut items: Vec<ListItemState> = Vec::new();
    let mut i: usize = 0;
    while i < specs.len()
        invariant
            i <= specs.len(),
            strings_view(specs@) == sv,
            items_view(items@) == cli_items(sv.take(i as int)),
        decreases specs.len() - i,
    {
        let sub = parse_spec(specs[i].as_str());
        let mut item = ListItemState::new(sub.title.clone());
        item.subtitle = opt_string(sub.get("subtitle"));
        item.icon = opt_string(sub.get("icon"));
        item.status = string_or_empty(sub.get("status"));
        item.status_text = string_or_empty(sub.get("statustext"));
        let ghost before = items@;
        items.push(item);
        assert(sv[i as int] == specs@[i as int]@);
        assert(item@ == item_from_spec(sv[i as int]));
        assert(items_view(items@) =~= items_view(before).push(item@));
        assert(sv.take(i + 1).drop_last() =~= sv.take(i as int));
        assert(sv.take(i + 1).last() == sv[i as int]);
        i = i + 1;
    }
    assert(sv.take(specs.len() as int) =~= sv);
    let ghost cli_part = items_view(items@);
    match config.json_array("listitem") {
        Some(arr) => {
            let mut j: usize = 0;
            while j < arr.len()
                invariant
                    j <= arr.len(),
                    items_view(items@) == cli_part + json_items(arr@.take(j as int)),
                decreases arr.len() - j,
            {
                assert(arr@.take(j + 1).drop_last() =~= arr@.take(j as int));
                assert(arr@.take(j + 1).last() == arr@[j as int]);
                match item_of_json(&arr[j]) {
                    Some(it) => {
                        let ghost before = items@;
                        items.push(it);
                        assert(items_view(items@) =~= items_view(before).push(it@));
                    },
                    None => {},
                }
                j = j + 1;
            }
            assert(arr@.take(arr.len() as int) =~= arr@);
        },
        None => {
            assert(items_view(items@) =~= cli_part + Seq::<ListItemV>::empty());
        },
    }
    items
}

} // verus!
