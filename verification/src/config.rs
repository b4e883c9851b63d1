//! Dialog configuration: CLI arguments overlaid with JSON input from
//! `--jsonfile <path>` or `--jsonstring <json>`. JSON keys are the long
//! option names; structured elements (textfield, checkbox, listitem,
//! selectitems) stay as JSON values for their element parsers.

use crate::exit_codes::{spec_exit_message, FILE_NOT_FOUND};
use crate::options::spec_by_long;
use crate::parser::ParsedArgs;
use crate::text::str_eq;
use vstd::prelude::*;
use vstd::string::*;

verus! {

broadcast use vstd::string::group_string_axioms;

/// A JSON value as read from `--jsonfile`/`--jsonstring`. Numbers keep the
/// text the JSON reader prints for them (`500`, `1.5`).
#[derive(Debug)]
pub enum Json {
    Null,
    Bool(bool),
    Number(String),
    Str(String),
    Array(Vec<Json>),
    Object(Vec<(String, Json)>),
}

/// The value an object holds for `key` (the last entry with that key).
pub open spec fn object_get(entries: Seq<(String, Json)>, key: Seq<char>) -> Option<Json>
    decreases entries.len(),
{
    if entries.len() == 0 {
        None
    } else if entries.last().0@ == key {
        Some(entries.last().1)
    } else {
        object_get(entries.drop_last(), key)
    }
}

/// Look up `key` in an object's entries.
pub fn object_lookup<'a>(entries: &'a Vec<(String, Json)>, key: &str) -> (r: Option<&'a Json>)
    ensures
        r matches Some(j) ==> object_get(entries@, key@) == Some(*j),
        r is None ==> object_get(entries@, key@) is None,
{
    let mut j = entries.len();
    assert(entries@.take(j as int) =~= entries@);
    while j > 0
        invariant
            j <= entries.len(),
            object_get(entries@, key@) == object_get(entries@.take(j as int), key@),
        decreases j,
    {
        assert(entries@.take(j as int).drop_last() =~= entries@.take(j - 1));
        assert(entries@.take(j as int).last() == entries@[j - 1]);
        if str_eq(entries[j - 1].0.as_str(), key) {
            return Some(&entries[j - 1].1);
        }
        j = j - 1;
    }
    None
}

#[derive(Debug)]
pub enum JsonError {
    /// `--jsonfile` path unreadable → exit 202, swiftDialog message.
    FileNotFound(String),
    /// Unparseable JSON → exit 202, "JSON import failed".
    Parse(String),
}

impl JsonError {
    pub fn exit_code(&self) -> (r: i32)
        ensures
            r == FILE_NOT_FOUND,
    {
        FILE_NOT_FOUND
    }

    /// The stderr line swiftDialog prints for this error.
    pub fn message(&self) -> (r: String)
        ensures
            r@ == (match self {
                JsonError::FileNotFound(path) => spec_exit_message(FILE_NOT_FOUND).unwrap()@
                    + " "@ + path@,
                JsonError::Parse(_) => "JSON import failed"@,
            }),
    {
        match self {
            JsonError::FileNotFound(path) => {
                let mut s = String::from_str("ERROR: File not found :");
                s.append(" ");
                s.append(path.as_str());
                s
            },
            JsonError::Parse(_) => String::from_str("JSON import failed"),
        }
    }
}

#[verifier::external_type_specification]
#[verifier::external_body]
pub struct ExJsonValue(serde_json::Value);

/// The document `serde_json` reads from `text` (as a `serde_json::Value`),
/// node for node as a [`Json`]; `None` where the text is not JSON.
pub uninterp spec fn json_document(text: Seq<char>) -> Option<Json>;

/// `serde_json::from_str::<serde_json::Value>`, the document copied node for
/// node into a [`Json`] (numbers by their printed text), or the reader's
/// message. Claimed: the result is [`json_document`] of the text, and an
/// error exactly where that is `None`; the message is left unsaid.
#[verifier::external_body]
pub fn parse_json_text(text: &str) -> (r: Result<Json, String>)
    ensures
        r matches Ok(j) ==> json_document(text@) == Some(j),
        r is Err ==> json_document(text@) is None,
{
    match serde_json::from_str::<serde_json::Value>(text) {
        Ok(v) => Ok(json_of_value(v)),
        Err(e) => Err(e.to_string()),
    }
}

/// A `serde_json::Value` as a [`Json`], variant for variant (numbers by
/// `Number::to_string`); what it returns is claimed only through
/// [`parse_json_text`].
#[verifier::external_body]
fn json_of_value(v: serde_json::Value) -> Json {
    match v {
        serde_json::Value::Null => Json::Null,
        serde_json::Value::Bool(b) => Json::Bool(b),
        serde_json::Value::Number(n) => Json::Number(n.to_string()),
        serde_json::Value::String(s) => Json::Str(s),
        serde_json::Value::Array(a) => Json::Array(a.into_iter().map(json_of_value).collect()),
        serde_json::Value::Object(m) => Json::Object(m.into_iter().map(|(k, x)| (k, json_of_value(x))).collect()),
    }
}

/// The JSON input that `text` (a `--jsonstring` value or a `--jsonfile`'s
/// content) gives.
pub fn json_input_of(text: &str) -> (r: JsonInput)
    ensures
        r matches JsonInput::Parsed(j) ==> json_document(text@) == Some(j),
        r is Invalid ==> json_document(text@) is None,
        r is Parsed || r is Invalid,
{
    match parse_json_text(text) {
        Ok(j) => JsonInput::Parsed(j),
        Err(m) => JsonInput::Invalid(m),
    }
}

/// Where the JSON input comes from: `--jsonfile` wins over `--jsonstring`.
#[derive(Debug)]
pub enum JsonSource {
    File(String),
    Text(String),
}

/// What reading and parsing the JSON input gave.
#[derive(Debug)]
pub enum JsonInput {
    /// Neither `--jsonfile` nor `--jsonstring` was given.
    Absent,
    /// The `--jsonfile` at this path could not be read.
    Unreadable(String),
    /// The JSON text did not parse; the reader's message.
    Invalid(String),
    Parsed(Json),
}

/// The JSON source a command line asks for.
pub fn json_source(cli: &ParsedArgs) -> (r: Option<JsonSource>)
    ensures
        cli.model().value("jsonfile"@) matches Some(p) ==> r matches Some(JsonSource::File(f))
            && f@ == p,
        cli.model().value("jsonfile"@) is None ==> (cli.model().value("jsonstring"@) matches Some(
            t) ==> r matches Some(JsonSource::Text(x)) && x@ == t),
        cli.model().value("jsonfile"@) is None && cli.model().value("jsonstring"@) is None
            ==> r is None,
{
    if let Some(path) = cli.value("jsonfile") {
        Some(JsonSource::File(String::from_str(path)))
    } else if let Some(s) = cli.value("jsonstring") {
        Some(JsonSource::Text(String::from_str(s)))
    } else {
        None
    }
}

/// Full dialog configuration: CLI args + optional JSON overlay.
/// Precedence: CLI value > JSON value > table default.
#[derive(Debug)]
pub struct Config {
    pub cli: ParsedArgs,
    pub json: Option<Json>,
}

/// The JSON value given for `name`, if the JSON input is an object holding it.
pub open spec fn spec_json_field(json: Option<Json>, name: Seq<char>) -> Option<Json> {
    match json {
        Some(Json::Object(entries)) => object_get(entries@, name),
        _ => None,
    }
}

/// Whether an option is set via CLI or JSON (JSON `false` does not count).
pub open spec fn spec_present(c: &Config, name: Seq<char>) -> bool {
    c.cli.model().present(name) || match spec_json_field(c.json, name) {
        Some(Json::Bool(b)) => b,
        Some(_) => true,
        None => false,
    }
}

/// Effective scalar value: CLI > JSON string/number/bool > table default.
pub open spec fn spec_value(c: &Config, name: Seq<char>) -> Option<Seq<char>> {
    match c.cli.model().value(name) {
        Some(v) => Some(v),
        None => match spec_json_field(c.json, name) {
            Some(Json::Str(s)) => Some(s@),
            Some(Json::Number(n)) => Some(n@),
            Some(Json::Bool(b)) => Some(
                if b {
                    "true"@
                } else {
                    "false"@
                },
            ),
            _ => match spec_by_long(name) {
                Some(d) => match d.default {
                    Some(x) => Some(x@),
                    None => None,
                },
                None => None,
            },
        },
    }
}

/// The JSON array given for `name`, if any.
pub open spec fn spec_json_array(c: &Config, name: Seq<char>) -> Option<Seq<Json>> {
    match spec_json_field(c.json, name) {
        Some(Json::Array(a)) => Some(a@),
        _ => None,
    }
}

impl Config {
    /// Build from parsed CLI args and the outcome of reading the JSON input.
    pub fn load(cli: ParsedArgs, input: JsonInput) -> (r: Result<Config, JsonError>)
        ensures
            match input {
                JsonInput::Absent => r matches Ok(c) && c.cli == cli && c.json is None,
                JsonInput::Parsed(j) => r matches Ok(c) && c.cli == cli && c.json == Some(j),
                JsonInput::Unreadable(p) => r matches Err(JsonError::FileNotFound(q)) && q@ == p@,
                JsonInput::Invalid(m) => r matches Err(JsonError::Parse(e)) && e@ == m@,
            },
    {
        match input {
            JsonInput::Absent => Ok(Config { cli, json: None }),
            JsonInput::Parsed(j) => Ok(Config { cli, json: Some(j) }),
            JsonInput::Unreadable(p) => Err(JsonError::FileNotFound(p)),
            JsonInput::Invalid(m) => Err(JsonError::Parse(m)),
        }
    }

    /// The JSON value given for `name`.
    pub fn json_field(&self, name: &str) -> (r: Option<&Json>)
        ensures
            r matches Some(j) ==> spec_json_field(self.json, name@) == Some(*j),
            r is None ==> spec_json_field(self.json, name@) is None,
    {
        match &self.json {
            Some(Json::Object(entries)) => object_lookup(entries, name),
            _ => None,
        }
    }

    /// Whether an option is set via CLI or JSON (truthy for JSON bools).
    pub fn present(&self, name: &str) -> (r: bool)
        ensures
            r == spec_present(self, name@),
    {
        if self.cli.present(name) {
            return true;
        }
        match self.json_field(name) {
            Some(Json::Bool(b)) => *b,
            Some(_) => true,
            None => false,
        }
    }

    /// Effective scalar value: CLI > JSON > table default.
    pub fn value(&self, name: &str) -> (r: Option<String>)
        ensures
            r matches Some(s) ==> spec_value(self, name@) == Some(s@),
            r is None ==> spec_value(self, name@) is None,
    {
        if let Some(v) = self.cli.value(name) {
            return Some(String::from_str(v));
        }
        match self.json_field(name) {
            Some(Json::Str(s)) => Some(s.clone()),
            Some(Json::Number(n)) => Some(n.clone()),
            Some(Json::Bool(b)) => Some(
                if *b {
                    String::from_str("true")
                } else {
                    String::from_str("false")
                },
            ),
            _ => match crate::options::by_long(name) {
                Some(d) => match d.default {
                    Some(x) => Some(String::from_str(x)),
                    None => None,
                },
                None => None,
            },
        }
    }

    /// Structured JSON array for an element key (e.g. "textfield",
    /// "checkbox", "listitem", "selectitems"), if provided via JSON.
    pub fn json_array(&self, name: &str) -> (r: Option<&Vec<Json>>)
        ensures
            r matches Some(a) ==> spec_json_array(self, name@) == Some(a@),
            r is None ==> spec_json_array(self, name@) is None,
    {
        match self.json_field(name) {
            Some(Json::Array(a)) => Some(a),
            _ => None,
        }
    }
}

} // verus!
