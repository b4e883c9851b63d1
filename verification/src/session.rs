//! What the running dialog decides in answer to the user and the window:
//! live input updates, the button1 submit, button and key events, exit
//! output, link opening and window anchors. The shell performs the actions
//! (opening a URL, printing, exiting, moving the window).

use crate::exit_codes::{BUTTON1, BUTTON2, INFO_BUTTON, QUIT_KEY};
use crate::options::{option_at, table, Kind, OptionDef, OPTION_COUNT};
use crate::output::{spec_from_dialog, UserInput};
use crate::state::{
    boxes_view, fields_view, items_view, selects_view, CheckboxV, DialogState, DialogV, ListItemV,
    SelectV, TextFieldV,
};
use crate::text::{chars_of, push_text, range_starts_with, starts_with, str_eq};
use crate::validation::{messages_view, pairs_view, spec_validate, validate, Submission};
use vstd::prelude::*;
use vstd::string::*;

verus! {

broadcast use vstd::string::group_string_axioms;

// ---- live input from the renderer ----

/// `i` is the first text field named `name`.
pub open spec fn first_field(fs: Seq<TextFieldV>, name: Seq<char>, i: int) -> bool {
    &&& 0 <= i < fs.len()
    &&& fs[i].name == name
    &&& forall|j: int| 0 <= j < i ==> fs[j].name != name
}

/// `i` is the first checkbox named `name`.
pub open spec fn first_checkbox(cs: Seq<CheckboxV>, name: Seq<char>, i: int) -> bool {
    &&& 0 <= i < cs.len()
    &&& cs[i].name == name
    &&& forall|j: int| 0 <= j < i ==> cs[j].name != name
}

/// `i` is the first select named `name`.
pub open spec fn first_select(ss: Seq<SelectV>, name: Seq<char>, i: int) -> bool {
    &&& 0 <= i < ss.len()
    &&& ss[i].name == name
    &&& forall|j: int| 0 <= j < i ==> ss[j].name != name
}

/// The dialog with text field `i` holding `value`.
pub open spec fn field_set(d: DialogV, i: int, value: Seq<char>) -> DialogV {
    DialogV { text_fields: d.text_fields.update(i, TextFieldV { value, ..d.text_fields[i] }), ..d }
}

/// The dialog with checkbox `i` set to `checked`.
pub open spec fn checkbox_set(d: DialogV, i: int, checked: bool) -> DialogV {
    DialogV { checkboxes: d.checkboxes.update(i, CheckboxV { checked, ..d.checkboxes[i] }), ..d }
}

/// The dialog with select `i` choosing `value`.
pub open spec fn select_set(d: DialogV, i: int, value: Seq<char>) -> DialogV {
    DialogV { selects: d.selects.update(i, SelectV { selected: value, ..d.selects[i] }), ..d }
}

/// The dialog with list row `i` (de)selected.
pub open spec fn row_selected(d: DialogV, i: int, selected: bool) -> DialogV {
    DialogV { list_items: d.list_items.update(i, ListItemV { selected, ..d.list_items[i] }), ..d }
}

pub open spec fn no_field_named(fs: Seq<TextFieldV>, name: Seq<char>) -> bool {
    forall|i: int| 0 <= i < fs.len() ==> fs[i].name != name
}

pub open spec fn no_checkbox_named(cs: Seq<CheckboxV>, name: Seq<char>) -> bool {
    forall|i: int| 0 <= i < cs.len() ==> cs[i].name != name
}

pub open spec fn no_select_named(ss: Seq<SelectV>, name: Seq<char>) -> bool {
    forall|i: int| 0 <= i < ss.len() ==> ss[i].name != name
}

impl DialogState {
    /// Store a live text-field value: the first field with that name takes
    /// it; with none of that name nothing changes.
    pub fn set_field(&mut self, name: &String, value: String)
        ensures
            forall|i: int|
                #![trigger first_field(old(self)@.text_fields, name@, i)]
                first_field(old(self)@.text_fields, name@, i) ==> final(self)@ == field_set(
                    old(self)@,
                    i,
                    value@,
                ),
            no_field_named(old(self)@.text_fields, name@) ==> final(self)@ == old(self)@,
    {
        let ghost fs = old(self)@.text_fields;
        let mut i: usize = 0;
        while i < self.text_fields.len()
            invariant
                i <= self.text_fields.len(),
                self@ == old(self)@,
                fs == fields_view(self.text_fields@),
                forall|j: int| 0 <= j < i ==> fs[j].name != name@,
            decreases self.text_fields.len() - i,
        {
            if self.text_fields[i].name == *name {
                let mut f = self.text_fields.remove(i);
                f.value = value;
                self.text_fields.insert(i, f);
                assert(fields_view(self.text_fields@) =~= fs.update(
                    i as int,
                    TextFieldV { value: value@, ..fs[i as int] },
                ));
                assert forall|k: int| first_field(fs, name@, k) implies k == i by {
                    if k < i {
                    } else if k > i {
                        assert(fs[i as int].name == name@);
                    }
                }
                return;
            }
            i = i + 1;
        }
    }

    /// Store a checkbox toggle: the first checkbox with that name takes it.
    pub fn set_checkbox(&mut self, name: &String, checked: bool)
        ensures
            forall|i: int|
                #![trigger first_checkbox(old(self)@.checkboxes, name@, i)]
                first_checkbox(old(self)@.checkboxes, name@, i) ==> final(self)@ == checkbox_set(
                    old(self)@,
                    i,
                    checked,
                ),
            no_checkbox_named(old(self)@.checkboxes, name@) ==> final(self)@ == old(self)@,
    {
        let ghost cs = old(self)@.checkboxes;
        let mut i: usize = 0;
        while i < self.checkboxes.len()
            invariant
                i <= self.checkboxes.len(),
                self@ == old(self)@,
                cs == boxes_view(self.checkboxes@),
                forall|j: int| 0 <= j < i ==> cs[j].name != name@,
            decreases self.checkboxes.len() - i,
        {
            if self.checkboxes[i].name == *name {
                let mut c = self.checkboxes.remove(i);
                c.checked = checked;
                self.checkboxes.insert(i, c);
                assert(boxes_view(self.checkboxes@) =~= cs.update(
                    i as int,
                    CheckboxV { checked, ..cs[i as int] },
                ));
                assert forall|k: int| first_checkbox(cs, name@, k) implies k == i by {
                    if k > i {
                        assert(cs[i as int].name == name@);
                    }
                }
                return;
            }
            i = i + 1;
        }
    }

    /// Store a select choice: the first select with that name takes it.
    pub fn set_select(&mut self, name: &String, value: String)
        ensures
            forall|i: int|
                #![trigger first_select(old(self)@.selects, name@, i)]
                first_select(old(self)@.selects, name@, i) ==> final(self)@ == select_set(
                    old(self)@,
                    i,
                    value@,
                ),
            no_select_named(old(self)@.selects, name@) ==> final(self)@ == old(self)@,
    {
        let ghost ss = old(self)@.selects;
        let mut i: usize = 0;
        while i < self.selects.len()
            invariant
                i <= self.selects.len(),
                self@ == old(self)@,
                ss == selects_view(self.selects@),
                forall|j: int| 0 <= j < i ==> ss[j].name != name@,
            decreases self.selects.len() - i,
        {
            if self.selects[i].name == *name {
                let mut s = self.selects.remove(i);
                s.selected = value;
                self.selects.insert(i, s);
                assert(selects_view(self.selects@) =~= ss.update(
                    i as int,
                    SelectV { selected: value@, ..ss[i as int] },
                ));
                assert forall|k: int| first_select(ss, name@, k) implies k == i by {
                    if k > i {
                        assert(ss[i as int].name == name@);
                    }
                }
                return;
            }
            i = i + 1;
        }
    }

    /// A list row's selection toggled under `--enablelistselect`; an index
    /// past the end changes nothing.
    pub fn list_select(&mut self, index: usize, selected: bool)
        ensures
            index < old(self)@.list_items.len() ==> final(self)@ == row_selected(
                old(self)@,
                index as int,
                selected,
            ),
            index >= old(self)@.list_items.len() ==> final(self)@ == old(self)@,
    {
        if index < self.list_items.len() {
            let ghost items = old(self)@.list_items;
            let mut item = self.list_items.remove(index);
            item.selected = selected;
            self.list_items.insert(index, item);
            assert(items_view(self.list_items@) =~= items.update(
                index as int,
                ListItemV { selected, ..items[index as int] },
            ));
        }
    }
}

// ---- submit, events and exit ----

/// The current input values, as the renderer submits them.
pub open spec fn submitted_texts(fs: Seq<TextFieldV>) -> Seq<(Seq<char>, Seq<char>)> {
    fs.map_values(|f: TextFieldV| (f.name, f.value))
}

pub open spec fn submitted_selects(ss: Seq<SelectV>) -> Seq<(Seq<char>, Seq<char>)> {
    ss.map_values(|s: SelectV| (s.name, s.selected))
}

/// Collect the current field and select values for validation.
pub fn submission_of(state: &DialogState) -> (sub: Submission)
    ensures
        pairs_view(sub.text_fields@) == submitted_texts(fields_view(state.text_fields@)),
        pairs_view(sub.selects@) == submitted_selects(selects_view(state.selects@)),
{
    let ghost fs = fields_view(state.text_fields@);
    let ghost ss = selects_view(state.selects@);
    let mut texts: Vec<(String, String)> = Vec::new();
    let mut i: usize = 0;
    while i < state.text_fields.len()
        invariant
            i <= state.text_fields.len(),
            fs == fields_view(state.text_fields@),
            pairs_view(texts@) == submitted_texts(fs).take(i as int),
        decreases state.text_fields.len() - i,
    {
        let ghost before = texts@;
        let f = &state.text_fields[i];
        texts.push((f.name.clone(), f.value.clone()));
        assert(pairs_view(texts@) =~= pairs_view(before).push((f.name@, f.value@)));
        assert(submitted_texts(fs).take(i + 1) =~= submitted_texts(fs).take(i as int).push(
            (f.name@, f.value@),
        ));
        i = i + 1;
    }
    assert(submitted_texts(fs).take(i as int) =~= submitted_texts(fs));
    let mut chosen: Vec<(String, String)> = Vec::new();
    let mut i: usize = 0;
    while i < state.selects.len()
        invariant
            i <= state.selects.len(),
            ss == selects_view(state.selects@),
            pairs_view(chosen@) == submitted_selects(ss).take(i as int),
        decreases state.selects.len() - i,
    {
        let ghost before = chosen@;
        let s = &state.selects[i];
        chosen.push((s.name.clone(), s.selected.clone()));
        assert(pairs_view(chosen@) =~= pairs_view(before).push((s.name@, s.selected@)));
        assert(submitted_selects(ss).take(i + 1) =~= submitted_selects(ss).take(i as int).push(
            (s.name@, s.selected@),
        ));
        i = i + 1;
    }
    assert(submitted_selects(ss).take(i as int) =~= submitted_selects(ss));
    Submission { text_fields: texts, selects: chosen }
}

/// A button action worth opening: a non-empty one.
pub open spec fn action_to_open(action: Option<Seq<char>>) -> Option<Seq<char>> {
    match action {
        Some(u) => if u.len() > 0 {
            Some(u)
        } else {
            None
        },
        None => None,
    }
}

fn non_empty_action(action: &Option<String>) -> (r: Option<String>)
    ensures
        crate::icon::opt_view(r) == action_to_open(crate::icon::opt_view(*action)),
{
    match action {
        Some(u) => if u.as_str().is_empty() {
            None
        } else {
            Some(u.clone())
        },
        None => None,
    }
}

/// What a button1 press leads to.
#[derive(Debug)]
pub enum SubmitOutcome {
    /// Validation failed: show these messages and stay open.
    Blocked(Vec<String>),
    /// Open the action URL, if any, then exit with button1's code.
    Accept { open: Option<String> },
}

pub enum SubmitOutcomeV {
    Blocked(Seq<Seq<char>>),
    Accept { open: Option<Seq<char>> },
}

impl View for SubmitOutcome {
    type V = SubmitOutcomeV;

    open spec fn view(&self) -> SubmitOutcomeV {
        match self {
            SubmitOutcome::Blocked(m) => SubmitOutcomeV::Blocked(m@.map_values(|s: String| s@)),
            SubmitOutcome::Accept { open } => SubmitOutcomeV::Accept {
                open: crate::icon::opt_view(*open),
            },
        }
    }
}

/// Button1: the current values are validated; any error blocks the quit.
pub open spec fn spec_submit(d: DialogV) -> SubmitOutcomeV {
    let errors = spec_validate(
        d.text_fields,
        d.selects,
        submitted_texts(d.text_fields),
        submitted_selects(d.selects),
    );
    if errors.len() > 0 {
        SubmitOutcomeV::Blocked(errors)
    } else {
        SubmitOutcomeV::Accept { open: action_to_open(d.button1.action) }
    }
}

/// Decide a button1 press.
pub fn submit(state: &DialogState) -> (r: SubmitOutcome)
    ensures
        r@ == spec_submit(state@),
{
    let sub = submission_of(state);
    let errors = validate(state, &sub);
    if errors.len() > 0 {
        let mut messages: Vec<String> = Vec::new();
        let mut i: usize = 0;
        while i < errors.len()
            invariant
                i <= errors.len(),
                messages@.map_values(|s: String| s@) == messages_view(errors@).take(i as int),
            decreases errors.len() - i,
        {
            let ghost before = messages@;
            messages.push(errors[i].message.clone());
            assert(messages@.map_values(|s: String| s@) =~= before.map_values(|s: String| s@).push(
                errors@[i as int].message@,
            ));
            assert(messages_view(errors@).take(i + 1) =~= messages_view(errors@).take(i as int).push(
                errors@[i as int].message@,
            ));
            i = i + 1;
        }
        assert(messages_view(errors@).take(i as int) =~= messages_view(errors@));
        SubmitOutcome::Blocked(messages)
    } else {
        SubmitOutcome::Accept { open: non_empty_action(&state.button1.action) }
    }
}

/// What a button or key event from the renderer leads to.
#[derive(Debug)]
pub struct UiReaction {
    /// A URL to open first.
    pub open: Option<String>,
    /// The exit code to quit with, if the event quits.
    pub exit: Option<i32>,
    /// The event name was not recognised.
    pub unknown: bool,
}

pub struct UiReactionV {
    pub open: Option<Seq<char>>,
    pub exit: Option<i32>,
    pub unknown: bool,
}

impl View for UiReaction {
    type V = UiReactionV;

    open spec fn view(&self) -> UiReactionV {
        UiReactionV { open: crate::icon::opt_view(self.open), exit: self.exit, unknown: self.unknown }
    }
}

/// `button2` opens its action and exits 2; `info` opens its action and
/// exits 3 only under `--quitoninfo`; `quitkey` exits 10.
pub open spec fn spec_ui_event(d: DialogV, event: Seq<char>, quit_on_info: bool) -> UiReactionV {
    if event == "button2"@ {
        UiReactionV { open: action_to_open(d.button2.action), exit: Some(BUTTON2), unknown: false }
    } else if event == "info"@ {
        UiReactionV {
            open: action_to_open(d.info_button.action),
            exit: if quit_on_info {
                Some(INFO_BUTTON)
            } else {
                None
            },
            unknown: false,
        }
    } else if event == "quitkey"@ {
        UiReactionV { open: None, exit: Some(QUIT_KEY), unknown: false }
    } else {
        UiReactionV { open: None, exit: None, unknown: true }
    }
}

/// Decide a renderer event.
pub fn ui_event(state: &DialogState, event: &str, quit_on_info: bool) -> (r: UiReaction)
    ensures
        r@ == spec_ui_event(state@, event@, quit_on_info),
{
    if str_eq(event, "button2") {
        UiReaction { open: non_empty_action(&state.button2.action), exit: Some(BUTTON2), unknown: false }
    } else if str_eq(event, "info") {
        UiReaction {
            open: non_empty_action(&state.info_button.action),
            exit: if quit_on_info {
                Some(INFO_BUTTON)
            } else {
                None
            },
            unknown: false,
        }
    } else if str_eq(event, "quitkey") {
        UiReaction { open: None, exit: Some(QUIT_KEY), unknown: false }
    } else {
        UiReaction { open: None, exit: None, unknown: true }
    }
}

/// Whether an exit with `code` reports the input values: always on button1,
/// on any other exit only under `--alwaysreturninput`.
pub open spec fn emits_inputs(code: i32, always_return_input: bool) -> bool {
    code == BUTTON1 || always_return_input
}

/// The output an exit with `code` prints.
pub fn exit_input(state: &DialogState, code: i32, always_return_input: bool) -> (r: UserInput)
    ensures
        r@ == spec_from_dialog(
            items_view(state.list_items@),
            state.list_select_enabled,
            fields_view(state.text_fields@),
            boxes_view(state.checkboxes@),
            selects_view(state.selects@),
            emits_inputs(code, always_return_input),
        ),
{
    UserInput::from_dialog(state, code == BUTTON1 || always_return_input)
}

/// Links from rendered markdown open only with a web scheme: the webview
/// must never launch arbitrary local programs.
pub open spec fn is_web_link(url: Seq<char>) -> bool {
    starts_with(url, "https://"@) || starts_with(url, "http://"@) || starts_with(url, "mailto:"@)
}

/// Whether a link may be opened.
pub fn web_link(url: &str) -> (r: bool)
    ensures
        r == is_web_link(url@),
{
    let v = chars_of(url);
    assert(v@.subrange(0, v@.len() as int) =~= v@);
    range_starts_with(&v, 0, v.len(), "https://") || range_starts_with(&v, 0, v.len(), "http://")
        || range_starts_with(&v, 0, v.len(), "mailto:")
}

// ---- window anchors ----

/// Where the window goes along one axis.
#[derive(Clone, Copy, Debug, PartialEq, Eq)]
pub enum Placement {
    Start,
    Middle,
    End,
}

/// Horizontal and vertical placement of one of swiftDialog's nine screen
/// anchors (`centre` spelled either way); `None` for anything else.
pub open spec fn spec_anchor(a: Seq<char>) -> Option<(Placement, Placement)> {
    if a == "topleft"@ {
        Some((Placement::Start, Placement::Start))
    } else if a == "top"@ {
        Some((Placement::Middle, Placement::Start))
    } else if a == "topright"@ {
        Some((Placement::End, Placement::Start))
    } else if a == "left"@ {
        Some((Placement::Start, Placement::Middle))
    } else if a == "center"@ || a == "centre"@ {
        Some((Placement::Middle, Placement::Middle))
    } else if a == "right"@ {
        Some((Placement::End, Placement::Middle))
    } else if a == "bottomleft"@ {
        Some((Placement::Start, Placement::End))
    } else if a == "bottom"@ {
        Some((Placement::Middle, Placement::End))
    } else if a == "bottomright"@ {
        Some((Placement::End, Placement::End))
    } else {
        None
    }
}

/// Read a window anchor.
pub fn anchor(a: &str) -> (r: Option<(Placement, Placement)>)
    ensures
        r == spec_anchor(a@),
{
    if str_eq(a, "topleft") {
        Some((Placement::Start, Placement::Start))
    } else if str_eq(a, "top") {
        Some((Placement::Middle, Placement::Start))
    } else if str_eq(a, "topright") {
        Some((Placement::End, Placement::Start))
    } else if str_eq(a, "left") {
        Some((Placement::Start, Placement::Middle))
    } else if str_eq(a, "center") || str_eq(a, "centre") {
        Some((Placement::Middle, Placement::Middle))
    } else if str_eq(a, "right") {
        Some((Placement::End, Placement::Middle))
    } else if str_eq(a, "bottomleft") {
        Some((Placement::Start, Placement::End))
    } else if str_eq(a, "bottom") {
        Some((Placement::Middle, Placement::End))
    } else if str_eq(a, "bottomright") {
        Some((Placement::End, Placement::End))
    } else {
        None
    }
}

// ---- help ----

pub open spec fn help_header() -> Seq<char> {
    "dialog — swiftDialog-compatible dialog utility\n\nUsage: dialog [options]\n\nOptions:\n"@
}

/// One help line: `  -s, --long <value>`.
pub open spec fn help_line(def: OptionDef) -> Seq<char> {
    "  "@ + match def.short {
        Some(s) => "-"@ + s@ + ", "@,
        None => Seq::empty(),
    } + "--"@ + def.long@ + match def.kind {
        Kind::WithValue => " <value>"@,
        Kind::Flag => Seq::empty(),
    } + "\n"@
}

/// The help lines of the first `n` table entries; hidden options and
/// deprecated aliases are left out.
pub open spec fn help_lines(n: int) -> Seq<char>
    decreases n,
{
    if n <= 0 {
        Seq::empty()
    } else {
        let def = table(n - 1);
        if def.hidden || def.alias_of is Some {
            help_lines(n - 1)
        } else {
            help_lines(n - 1) + help_line(def)
        }
    }
}

fn push_help_line(out: &mut String, def: &OptionDef)
    ensures
        final(out)@ == old(out)@ + help_line(*def),
{
    let ghost before = out@;
    push_text(out, "  ");
    match def.short {
        Some(s) => {
            push_text(out, "-");
            push_text(out, s);
            push_text(out, ", ");
        },
        None => {},
    }
    push_text(out, "--");
    push_text(out, def.long);
    match def.kind {
        Kind::WithValue => push_text(out, " <value>"),
        Kind::Flag => {},
    }
    push_text(out, "\n");
    assert(out@ =~= before + help_line(*def));
}

/// The `--help` text.
pub fn help_text() -> (r: String)
    ensures
        r@ == help_header() + help_lines(OPTION_COUNT as int),
{
    let mut out = String::new();
    push_text(&mut out, "dialog — swiftDialog-compatible dialog utility\n\nUsage: dialog [options]\n\nOptions:\n");
    let mut i: usize = 0;
    while i < OPTION_COUNT
        invariant
            i <= OPTION_COUNT,
            out@ == help_header() + help_lines(i as int),
        decreases OPTION_COUNT - i,
    {
        let def = option_at(i);
        if !def.hidden && def.alias_of.is_none() {
            push_help_line(&mut out, &def);
        }
        i = i + 1;
    }
    out
}

} // verus!
