//! Submit-time validation for user input. On button1 the shell collects the
//! current field values and runs these checks; any failure blocks the quit
//! and surfaces an error sheet: required fields must not be blank, and a
//! non-empty field with a `regex=` must match it.

use crate::output::quoted;
use crate::regex_lite::spec_matches;
use crate::state::{fields_view, selects_view, DialogState, SelectV, TextFieldV};
use crate::text::{chars_of, push_char, push_text, trim, trim_bounds};
use vstd::prelude::*;

verus! {

/// One unmet requirement, rendered as a line in the error sheet.
#[derive(Debug, Clone, PartialEq, Eq)]
pub struct ValidationError {
    pub message: String,
}

/// Current values submitted from the renderer, keyed by element name.
#[derive(Debug, Clone, Default)]
pub struct Submission {
    pub text_fields: Vec<(String, String)>,
    pub selects: Vec<(String, String)>,
}

pub open spec fn pairs_view(v: Seq<(String, String)>) -> Seq<(Seq<char>, Seq<char>)> {
    v.map_values(|p: (String, String)| (p.0@, p.1@))
}

/// The value of the first pair named `name`.
pub open spec fn first_value(pairs: Seq<(Seq<char>, Seq<char>)>, name: Seq<char>) -> Option<Seq<char>>
    decreases pairs.len(),
{
    if pairs.len() == 0 {
        None
    } else if pairs[0].0 == name {
        Some(pairs[0].1)
    } else {
        first_value(pairs.subrange(1, pairs.len() as int), name)
    }
}

/// A submitted value, blank when nothing was submitted under that name.
pub open spec fn submitted(pairs: Seq<(Seq<char>, Seq<char>)>, name: Seq<char>) -> Seq<char> {
    match first_value(pairs, name) {
        Some(v) => v,
        None => Seq::empty(),
    }
}

pub open spec fn required_message(title: Seq<char>) -> Seq<char> {
    quoted(title) + " is required"@
}

pub open spec fn invalid_message(title: Seq<char>) -> Seq<char> {
    quoted(title) + " is invalid"@
}

/// The error of one text field: blank but required; or non-empty and not
/// matching its pattern (its `regexerror=` text, else a default message).
pub open spec fn field_error(f: TextFieldV, value: Seq<char>) -> Option<Seq<char>> {
    if f.required && trim(value).len() == 0 {
        Some(required_message(f.title))
    } else if value.len() > 0 && f.regex is Some && !spec_matches(f.regex->0, value) {
        match f.regex_error {
            Some(m) => Some(m),
            None => Some(invalid_message(f.title)),
        }
    } else {
        None
    }
}

pub open spec fn field_errors(fields: Seq<TextFieldV>, texts: Seq<(Seq<char>, Seq<char>)>) -> Seq<Seq<char>>
    decreases fields.len(),
{
    if fields.len() == 0 {
        Seq::empty()
    } else {
        let f = fields.last();
        let before = field_errors(fields.drop_last(), texts);
        match field_error(f, submitted(texts, f.name)) {
            Some(m) => before.push(m),
            None => before,
        }
    }
}

pub open spec fn select_errors(selects: Seq<SelectV>, chosen: Seq<(Seq<char>, Seq<char>)>) -> Seq<Seq<char>>
    decreases selects.len(),
{
    if selects.len() == 0 {
        Seq::empty()
    } else {
        let s = selects.last();
        let before = select_errors(selects.drop_last(), chosen);
        if s.required && trim(submitted(chosen, s.name)).len() == 0 {
            before.push(required_message(s.title))
        } else {
            before
        }
    }
}

/// The error lines of a submission: text fields first, then selects, each
/// in declaration order.
pub open spec fn spec_validate(
    fields: Seq<TextFieldV>,
    selects: Seq<SelectV>,
    texts: Seq<(Seq<char>, Seq<char>)>,
    chosen: Seq<(Seq<char>, Seq<char>)>,
) -> Seq<Seq<char>> {
    field_errors(fields, texts) + select_errors(selects, chosen)
}

pub open spec fn messages_view(v: Seq<ValidationError>) -> Seq<Seq<char>> {
    v.map_values(|e: ValidationError| e.message@)
}

fn first_of<'a>(pairs: &'a Vec<(String, String)>, name: &String) -> (r: Option<&'a String>)
    ensures
        match r {
            Some(v) => first_value(pairs_view(pairs@), name@) == Some(v@),
            None => first_value(pairs_view(pairs@), name@) is None,
        },
{
    let ghost pv = pairs_view(pairs@);
    let mut i: usize = 0;
    assert(pv.subrange(0, pv.len() as int) =~= pv);
    while i < pairs.len()
        invariant
            i <= pairs.len(),
            pv == pairs_view(pairs@),
            first_value(pv, name@) == first_value(pv.subrange(i as int, pv.len() as int), name@),
        decreases pairs.len() - i,
    {
        let ghost rest = pv.subrange(i as int, pv.len() as int);
        assert(rest.subrange(1, rest.len() as int) =~= pv.subrange(i + 1, pv.len() as int));
        if pairs[i].0 == *name {
            return Some(&pairs[i].1);
        }
        i = i + 1;
    }
    None
}

impl Submission {
    /// The submitted value of the text field `name`, if any.
    pub fn text(&self, name: &String) -> (r: Option<&String>)
        ensures
            match r {
                Some(v) => first_value(pairs_view(self.text_fields@), name@) == Some(v@),
                None => first_value(pairs_view(self.text_fields@), name@) is None,
            },
    {
        first_of(&self.text_fields, name)
    }

    /// The submitted value of the select `name`, if any.
    pub fn select(&self, name: &String) -> (r: Option<&String>)
        ensures
            match r {
                Some(v) => first_value(pairs_view(self.selects@), name@) == Some(v@),
                None => first_value(pairs_view(self.selects@), name@) is None,
            },
    {
        first_of(&self.selects, name)
    }
}

fn is_blank(s: &String) -> (r: bool)
    ensures
        r == (trim(s@).len() == 0),
{
    let v = chars_of(s.as_str());
    let (a, b) = trim_bounds(&v, 0, v.len());
    assert(v@.subrange(0, v@.len() as int) =~= v@);
    a == b
}

fn message_with(title: &String, tail: &str) -> (r: String)
    ensures
        r@ == quoted(title@) + tail@,
{
    let mut m = String::new();
    push_char(&mut m, '"');
    push_text(&mut m, title.as_str());
    push_char(&mut m, '"');
    push_text(&mut m, tail);
    assert(m@ =~= quoted(title@) + tail@);
    m
}

/// Validate the submission against the dialog's declared requirements.
/// An empty result means the dialog may quit.
pub fn validate(state: &DialogState, sub: &Submission) -> (r: Vec<ValidationError>)
    ensures
        messages_view(r@) == spec_validate(
            fields_view(state.text_fields@),
            selects_view(state.selects@),
            pairs_view(sub.text_fields@),
            pairs_view(sub.selects@),
        ),
{
    let ghost fields = fields_view(state.text_fields@);
    let ghost texts = pairs_view(sub.text_fields@);
    let mut errors: Vec<ValidationError> = Vec::new();
    let mut i: usize = 0;
    assert(fields.take(0) =~= Seq::<TextFieldV>::empty());
    assert(messages_view(errors@) =~= Seq::<Seq<char>>::empty());
    while i < state.text_fields.len()
        invariant
            i <= state.text_fields.len(),
            fields == fields_view(state.text_fields@),
            texts == pairs_view(sub.text_fields@),
            messages_view(errors@) == field_errors(fields.take(i as int), texts),
        decreases state.text_fields.len() - i,
    {
        let field = &state.text_fields[i];
        let ghost before = errors@;
        let empty = String::new();
        let value = match sub.text(&field.name) {
            Some(v) => v,
            None => &empty,
        };
        assert(value@ == submitted(texts, field.name@));
        assert(fields.take(i + 1).drop_last() =~= fields.take(i as int));
        assert(fields.take(i + 1).last() == field@);
        if field.required && is_blank(value) {
            errors.push(ValidationError { message: message_with(&field.title, " is required") });
        } else if !value.as_str().is_empty() {
            match &field.regex {
                Some(pattern) => {
                    if !crate::regex_lite::matches(pattern.as_str(), value.as_str()) {
                        let msg = match &field.regex_error {
                            Some(m) => m.clone(),
                            None => message_with(&field.title, " is invalid"),
                        };
                        errors.push(ValidationError { message: msg });
                    }
                },
                None => {},
            }
        }
        assert(messages_view(errors@) =~= match field_error(field@, value@) {
            Some(m) => messages_view(before).push(m),
            None => messages_view(before),
        });
        i = i + 1;
    }
    assert(fields.take(state.text_fields.len() as int) =~= fields);
    let ghost after_fields = messages_view(errors@);
    let ghost selects = selects_view(state.selects@);
    let ghost chosen = pairs_view(sub.selects@);
    let mut i: usize = 0;
    assert(after_fields + select_errors(selects.take(0), chosen) =~= after_fields);
    while i < state.selects.len()
        invariant
            i <= state.selects.len(),
            selects == selects_view(state.selects@),
            chosen == pairs_view(sub.selects@),
            messages_view(errors@) == after_fields + select_errors(selects.take(i as int), chosen),
        decreases state.selects.len() - i,
    {
        let select = &state.selects[i];
        let ghost before = errors@;
        let empty = String::new();
        let value = match sub.select(&select.name) {
            Some(v) => v,
            None => &empty,
        };
        assert(value@ == submitted(chosen, select.name@));
        assert(selects.take(i + 1).drop_last() =~= selects.take(i as int));
        assert(selects.take(i + 1).last() == select@);
        if select.required && is_blank(value) {
            let m = message_with(&select.title, " is required");
            errors.push(ValidationError { message: m });
            assert(messages_view(errors@) =~= messages_view(before).push(m@));
            assert(after_fields + select_errors(selects.take(i + 1), chosen) =~= (after_fields
                + select_errors(selects.take(i as int), chosen)).push(m@));
        }
        i = i + 1;
    }
    assert(selects.take(state.selects.len() as int) =~= selects);
    errors
}

} // verus!
