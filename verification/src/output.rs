//! Exit output contract: the `key : value` lines and `--json` object that
//! scripts parse. Formats follow swiftDialog bit for bit — note the quoting
//! quirks: textfield lines are unquoted, select/checkbox/list lines are
//! quoted, plain `SelectedIndex` is a bare number.

use crate::state::{
    boxes_view, fields_view, items_view, selects_view, CheckboxV, DialogState, ListItemV, SelectV,
    TextFieldV,
};
use crate::text::{int_text, push_char, push_int, push_text, str_eq};
use vstd::prelude::*;
use vstd::string::*;

verus! {

broadcast use vstd::string::group_string_axioms;

#[derive(Debug, Clone)]
pub struct SelectResult {
    /// `name=` sub-option if given, else the select title.
    pub name: String,
    pub selected_value: String,
    /// Index into the values list, -1 if unmatched.
    pub selected_index: i64,
}

pub struct SelectResultV {
    pub name: Seq<char>,
    pub value: Seq<char>,
    pub index: i64,
}

impl View for SelectResult {
    type V = SelectResultV;

    open spec fn view(&self) -> SelectResultV {
        SelectResultV { name: self.name@, value: self.selected_value@, index: self.selected_index }
    }
}

/// Everything user input contributes to exit output, in swiftDialog's
/// emission order: textfields → selects → list selections → checkboxes.
#[derive(Debug, Clone, Default)]
pub struct UserInput {
    pub textfields: Vec<(String, String)>,
    pub selects: Vec<SelectResult>,
    pub list_selections: Vec<(String, bool)>,
    pub checkboxes: Vec<(String, bool)>,
}

pub struct UserInputV {
    pub textfields: Seq<(Seq<char>, Seq<char>)>,
    pub selects: Seq<SelectResultV>,
    pub list_selections: Seq<(Seq<char>, bool)>,
    pub checkboxes: Seq<(Seq<char>, bool)>,
}

impl View for UserInput {
    type V = UserInputV;

    open spec fn view(&self) -> UserInputV {
        UserInputV {
            textfields: self.textfields@.map_values(|p: (String, String)| (p.0@, p.1@)),
            selects: self.selects@.map_values(|s: SelectResult| s@),
            list_selections: self.list_selections@.map_values(|p: (String, bool)| (p.0@, p.1)),
            checkboxes: self.checkboxes@.map_values(|p: (String, bool)| (p.0@, p.1)),
        }
    }
}

/// Position of the first `x` in `s`, -1 when absent.
pub open spec fn position(s: Seq<Seq<char>>, x: Seq<char>) -> int
    decreases s.len(),
{
    if s.len() == 0 {
        -1
    } else if s[0] == x {
        0
    } else {
        let r = position(s.subrange(1, s.len() as int), x);
        if r < 0 {
            -1
        } else {
            r + 1
        }
    }
}

/// The output of one select: its name, value, and the value's index.
pub open spec fn select_result(s: SelectV) -> SelectResultV {
    SelectResultV { name: s.name, value: s.selected, index: position(s.values, s.selected) as i64 }
}

/// What an exit emits: list selections whenever `--enablelistselect` is set;
/// textfields, checkboxes and selects only when `emit_inputs`.
pub open spec fn spec_from_dialog(
    items: Seq<ListItemV>,
    list_select: bool,
    fields: Seq<TextFieldV>,
    boxes: Seq<CheckboxV>,
    selects: Seq<SelectV>,
    emit_inputs: bool,
) -> UserInputV {
    UserInputV {
        textfields: if emit_inputs {
            fields.map_values(|f: TextFieldV| (f.name, f.value))
        } else {
            Seq::empty()
        },
        selects: if emit_inputs {
            selects.map_values(|s: SelectV| select_result(s))
        } else {
            Seq::empty()
        },
        list_selections: if list_select {
            items.map_values(|i: ListItemV| (i.title, i.selected))
        } else {
            Seq::empty()
        },
        checkboxes: if emit_inputs {
            boxes.map_values(|c: CheckboxV| (c.name, c.checked))
        } else {
            Seq::empty()
        },
    }
}

/// Index of the first value equal to `x`, -1 when absent.
fn position_of(values: &Vec<String>, x: &String) -> (r: i64)
    ensures
        r == position(values@.map_values(|s: String| s@), x@) as i64,
{
    let ghost vv = values@.map_values(|s: String| s@);
    let mut i: usize = 0;
    assert(vv.subrange(0, vv.len() as int) =~= vv);
    while i < values.len()
        invariant
            i <= values.len(),
            vv == values@.map_values(|s: String| s@),
            position(vv, x@) == (if position(vv.subrange(i as int, vv.len() as int), x@) < 0 {
                -1
            } else {
                position(vv.subrange(i as int, vv.len() as int), x@) + i
            }),
        decreases values.len() - i,
    {
        let ghost rest = vv.subrange(i as int, vv.len() as int);
        assert(rest[0] == values@[i as int]@);
        assert(rest.subrange(1, rest.len() as int) =~= vv.subrange(i + 1, vv.len() as int));
        if values[i] == *x {
            return i as i64;
        }
        i = i + 1;
    }
    assert(vv.subrange(i as int, vv.len() as int) =~= Seq::<Seq<char>>::empty());
    -1
}

/// Lines joined with `\n` between them (none after the last).
pub open spec fn join_lines(ls: Seq<Seq<char>>) -> Seq<char>
    decreases ls.len(),
{
    if ls.len() == 0 {
        Seq::empty()
    } else if ls.len() == 1 {
        ls[0]
    } else {
        join_lines(ls.drop_last()) + seq!['\n'] + ls.last()
    }
}

/// `"text"`: the text between double quotes.
pub open spec fn quoted(t: Seq<char>) -> Seq<char> {
    seq!['"'] + t + seq!['"']
}

/// `true` / `false`, as `bool` displays.
pub open spec fn bool_text(b: bool) -> Seq<char> {
    if b { "true"@ } else { "false"@ }
}

/// A textfield line: `name : value`, unquoted.
pub open spec fn field_line(name: Seq<char>, value: Seq<char>) -> Seq<char> {
    name + " : "@ + value
}

/// A list-selection or checkbox line: `"name" : "true"`.
pub open spec fn flag_line(name: Seq<char>, b: bool) -> Seq<char> {
    quoted(name) + " : "@ + quoted(bool_text(b))
}

/// The two lines of one select: `"name" : "value"` and `"name" index : "i"`.
pub open spec fn select_lines(s: SelectResultV) -> Seq<Seq<char>> {
    seq![
        quoted(s.name) + " : "@ + quoted(s.value),
        quoted(s.name) + " index : "@ + quoted(int_text(s.index as int)),
    ]
}

/// Legacy keys of a single-select dialog: `"SelectedOption" : "value"` and
/// `"SelectedIndex" : i` (a bare number); none with zero or several selects.
pub open spec fn legacy_lines(selects: Seq<SelectResultV>) -> Seq<Seq<char>> {
    if selects.len() == 1 {
        seq![
            quoted("SelectedOption"@) + " : "@ + quoted(selects[0].value),
            quoted("SelectedIndex"@) + " : "@ + int_text(selects[0].index as int),
        ]
    } else {
        Seq::empty()
    }
}

pub open spec fn field_lines(fields: Seq<(Seq<char>, Seq<char>)>) -> Seq<Seq<char>>
    decreases fields.len(),
{
    if fields.len() == 0 {
        Seq::empty()
    } else {
        field_lines(fields.drop_last()).push(field_line(fields.last().0, fields.last().1))
    }
}

pub open spec fn flag_lines(flags: Seq<(Seq<char>, bool)>) -> Seq<Seq<char>>
    decreases flags.len(),
{
    if flags.len() == 0 {
        Seq::empty()
    } else {
        flag_lines(flags.drop_last()).push(flag_line(flags.last().0, flags.last().1))
    }
}

pub open spec fn selects_lines(selects: Seq<SelectResultV>) -> Seq<Seq<char>>
    decreases selects.len(),
{
    if selects.len() == 0 {
        Seq::empty()
    } else {
        selects_lines(selects.drop_last()) + select_lines(selects.last())
    }
}

/// The plain (non-`--json`) output lines, in emission order.
pub open spec fn spec_plain_lines(u: UserInputV) -> Seq<Seq<char>> {
    field_lines(u.textfields) + legacy_lines(u.selects) + selects_lines(u.selects)
        + flag_lines(u.list_selections) + flag_lines(u.checkboxes)
}

fn push_quoted(s: &mut String, t: &str)
    ensures
        final(s)@ == old(s)@ + quoted(t@),
{
    push_char(s, '"');
    push_text(s, t);
    push_char(s, '"');
    assert(old(s)@.push('"') + t@ + seq!['"'] =~= old(s)@ + quoted(t@));
}

fn bool_str(b: bool) -> (r: &'static str)
    ensures
        r@ == bool_text(b),
{
    if b { "true" } else { "false" }
}

fn flag_line_of(name: &String, b: bool) -> (r: String)
    ensures
        r@ == flag_line(name@, b),
{
    let mut line = String::new();
    push_quoted(&mut line, name.as_str());
    push_text(&mut line, " : ");
    push_quoted(&mut line, bool_str(b));
    assert(line@ =~= flag_line(name@, b));
    line
}

fn push_flag_lines(out: &mut Vec<String>, flags: &Vec<(String, bool)>)
    ensures
        final(out)@.map_values(|l: String| l@) == old(out)@.map_values(|l: String| l@)
            + flag_lines(flags@.map_values(|p: (String, bool)| (p.0@, p.1))),
{
    let ghost fv = flags@.map_values(|p: (String, bool)| (p.0@, p.1));
    let ghost start = old(out)@.map_values(|l: String| l@);
    let mut i: usize = 0;
    assert(fv.take(0) =~= Seq::<(Seq<char>, bool)>::empty());
    assert(start + flag_lines(fv.take(0)) =~= start);
    while i < flags.len()
        invariant
            i <= flags.len(),
            fv == flags@.map_values(|p: (String, bool)| (p.0@, p.1)),
            out@.map_values(|l: String| l@) == start + flag_lines(fv.take(i as int)),
        decreases flags.len() - i,
    {
        let ghost before = out@;
        let line = flag_line_of(&flags[i].0, flags[i].1);
        out.push(line);
        assert(fv.take(i + 1).drop_last() =~= fv.take(i as int));
        assert(out@.map_values(|l: String| l@) =~= before.map_values(|l: String| l@).push(line@));
        assert(start + flag_lines(fv.take(i + 1)) =~= (start + flag_lines(fv.take(i as int))).push(line@));
        i = i + 1;
    }
    assert(fv.take(flags.len() as int) =~= fv);
}

fn push_field_lines(out: &mut Vec<String>, fields: &Vec<(String, String)>)
    ensures
        final(out)@.map_values(|l: String| l@) == old(out)@.map_values(|l: String| l@)
            + field_lines(fields@.map_values(|p: (String, String)| (p.0@, p.1@))),
{
    let ghost fv = fields@.map_values(|p: (String, String)| (p.0@, p.1@));
    let ghost start = old(out)@.map_values(|l: String| l@);
    let mut i: usize = 0;
    assert(fv.take(0) =~= Seq::<(Seq<char>, Seq<char>)>::empty());
    assert(start + field_lines(fv.take(0)) =~= start);
    while i < fields.len()
        invariant
            i <= fields.len(),
            fv == fields@.map_values(|p: (String, String)| (p.0@, p.1@)),
            out@.map_values(|l: String| l@) == start + field_lines(fv.take(i as int)),
        decreases fields.len() - i,
    {
        let ghost before = out@;
        let mut line = fields[i].0.clone();
        push_text(&mut line, " : ");
        push_text(&mut line, fields[i].1.as_str());
        out.push(line);
        assert(fv.take(i + 1).drop_last() =~= fv.take(i as int));
        assert(line@ == field_line(fv[i as int].0, fv[i as int].1));
        assert(out@.map_values(|l: String| l@) =~= before.map_values(|l: String| l@).push(line@));
        assert(start + field_lines(fv.take(i + 1)) =~= (start + field_lines(fv.take(i as int))).push(line@));
        i = i + 1;
    }
    assert(fv.take(fields.len() as int) =~= fv);
}

fn push_select_lines(out: &mut Vec<String>, selects: &Vec<SelectResult>)
    ensures
        final(out)@.map_values(|l: String| l@) == old(out)@.map_values(|l: String| l@)
            + selects_lines(selects@.map_values(|s: SelectResult| s@)),
{
    let ghost sv = selects@.map_values(|s: SelectResult| s@);
    let ghost start = old(out)@.map_values(|l: String| l@);
    let mut i: usize = 0;
    assert(sv.take(0) =~= Seq::<SelectResultV>::empty());
    assert(start + selects_lines(sv.take(0)) =~= start);
    while i < selects.len()
        invariant
            i <= selects.len(),
            sv == selects@.map_values(|s: SelectResult| s@),
            out@.map_values(|l: String| l@) == start + selects_lines(sv.take(i as int)),
        decreases selects.len() - i,
    {
        let ghost before = out@;
        let s = &selects[i];
        let mut a = String::new();
        push_quoted(&mut a, s.name.as_str());
        push_text(&mut a, " : ");
        push_quoted(&mut a, s.selected_value.as_str());
        let mut b = String::new();
        push_quoted(&mut b, s.name.as_str());
        push_text(&mut b, " index : ");
        let mut idx = String::new();
        push_int(&mut idx, s.selected_index);
        push_quoted(&mut b, idx.as_str());
        out.push(a);
        out.push(b);
        assert(sv.take(i + 1).drop_last() =~= sv.take(i as int));
        assert(select_lines(sv[i as int]) =~= seq![a@, b@]);
        assert(out@.map_values(|l: String| l@) =~= before.map_values(|l: String| l@) + seq![a@, b@]);
        assert(start + selects_lines(sv.take(i + 1)) =~= (start + selects_lines(sv.take(i as int))) + seq![a@, b@]);
        i = i + 1;
    }
    assert(sv.take(selects.len() as int) =~= sv);
}

/// A value of the `--json` output object.
#[derive(Debug, Clone)]
pub enum OutputValue {
    Text(String),
    Flag(bool),
    Number(i64),
    /// A select's nested object: `{"selectedValue": .., "selectedIndex": ..}`.
    Selection { selected_value: String, selected_index: i64 },
}

pub enum OutputValueV {
    Text(Seq<char>),
    Flag(bool),
    Number(i64),
    Selection { value: Seq<char>, index: i64 },
}

impl View for OutputValue {
    type V = OutputValueV;

    open spec fn view(&self) -> OutputValueV {
        match self {
            OutputValue::Text(t) => OutputValueV::Text(t@),
            OutputValue::Flag(b) => OutputValueV::Flag(*b),
            OutputValue::Number(n) => OutputValueV::Number(*n),
            OutputValue::Selection { selected_value, selected_index } => OutputValueV::Selection {
                value: selected_value@,
                index: *selected_index,
            },
        }
    }
}

/// The `--json` output object as its insertions in order; inserting a key
/// that is already there replaces its value, as a JSON map does.
#[derive(Debug, Clone)]
pub struct JsonObject {
    pub entries: Vec<(String, OutputValue)>,
}

pub open spec fn entries_view(e: Seq<(String, OutputValue)>) -> Seq<(Seq<char>, OutputValueV)> {
    e.map_values(|p: (String, OutputValue)| (p.0@, p.1@))
}

/// The value a key ends up with: that of its last insertion.
pub open spec fn lookup(e: Seq<(Seq<char>, OutputValueV)>, key: Seq<char>) -> Option<OutputValueV>
    decreases e.len(),
{
    if e.len() == 0 {
        None
    } else if e.last().0 == key {
        Some(e.last().1)
    } else {
        lookup(e.drop_last(), key)
    }
}

pub open spec fn legacy_entries(selects: Seq<SelectResultV>) -> Seq<(Seq<char>, OutputValueV)> {
    if selects.len() == 1 {
        seq![
            ("SelectedOption"@, OutputValueV::Text(selects[0].value)),
            ("SelectedIndex"@, OutputValueV::Number(selects[0].index)),
        ]
    } else {
        Seq::empty()
    }
}

/// The insertions of the `--json` object, in emission order.
pub open spec fn spec_json_entries(u: UserInputV) -> Seq<(Seq<char>, OutputValueV)> {
    u.textfields.map_values(|p: (Seq<char>, Seq<char>)| (p.0, OutputValueV::Text(p.1)))
        + legacy_entries(u.selects)
        + u.selects.map_values(
        |s: SelectResultV| (s.name, OutputValueV::Selection { value: s.value, index: s.index }),
    ) + u.list_selections.map_values(|p: (Seq<char>, bool)| (p.0, OutputValueV::Flag(p.1)))
        + u.checkboxes.map_values(|p: (Seq<char>, bool)| (p.0, OutputValueV::Flag(p.1)))
}

impl JsonObject {
    /// The value `key` ends up with, if any.
    pub fn get(&self, key: &str) -> (r: Option<&OutputValue>)
        ensures
            match r {
                Some(v) => lookup(entries_view(self.entries@), key@) == Some(v@),
                None => lookup(entries_view(self.entries@), key@) is None,
            },
    {
        let ghost ev = entries_view(self.entries@);
        let mut i: usize = self.entries.len();
        assert(ev.take(i as int) =~= ev);
        while i > 0
            invariant
                i <= self.entries.len(),
                ev == entries_view(self.entries@),
                lookup(ev, key@) == lookup(ev.take(i as int), key@),
            decreases i,
        {
            assert(ev.take(i as int).drop_last() =~= ev.take(i - 1));
            if str_eq(self.entries[i - 1].0.as_str(), key) {
                return Some(&self.entries[i - 1].1);
            }
            i = i - 1;
        }
        None
    }
}

fn push_flag_entries(out: &mut Vec<(String, OutputValue)>, flags: &Vec<(String, bool)>)
    ensures
        entries_view(final(out)@) == entries_view(old(out)@) + flags@.map_values(
            |p: (String, bool)| (p.0@, p.1),
        ).map_values(|p: (Seq<char>, bool)| (p.0, OutputValueV::Flag(p.1))),
{
    let ghost target = flags@.map_values(|p: (String, bool)| (p.0@, p.1)).map_values(
        |p: (Seq<char>, bool)| (p.0, OutputValueV::Flag(p.1)),
    );
    let ghost start = entries_view(old(out)@);
    let mut i: usize = 0;
    assert(start + target.take(0) =~= start);
    while i < flags.len()
        invariant
            i <= flags.len(),
            target == flags@.map_values(|p: (String, bool)| (p.0@, p.1)).map_values(
                |p: (Seq<char>, bool)| (p.0, OutputValueV::Flag(p.1)),
            ),
            entries_view(out@) == start + target.take(i as int),
        decreases flags.len() - i,
    {
        let ghost before = out@;
        out.push((flags[i].0.clone(), OutputValue::Flag(flags[i].1)));
        assert(entries_view(out@) =~= entries_view(before).push(target[i as int]));
        assert(start + target.take(i + 1) =~= (start + target.take(i as int)).push(target[i as int]));
        i = i + 1;
    }
    assert(target.take(flags.len() as int) =~= target);
}

impl UserInput {
    /// Collect the output an exit emits from the dialog state. List
    /// selections are included whenever `--enablelistselect` is set;
    /// textfields/checkboxes/selects only when `emit_inputs` (button1, or any
    /// exit under `--alwaysreturninput`).
    pub fn from_dialog(state: &DialogState, emit_inputs: bool) -> (r: UserInput)
        ensures
            r@ == spec_from_dialog(
                items_view(state.list_items@),
                state.list_select_enabled,
                fields_view(state.text_fields@),
                boxes_view(state.checkboxes@),
                selects_view(state.selects@),
                emit_inputs,
            ),
    {
        let mut textfields: Vec<(String, String)> = Vec::new();
        let mut selects: Vec<SelectResult> = Vec::new();
        let mut list_selections: Vec<(String, bool)> = Vec::new();
        let mut checkboxes: Vec<(String, bool)> = Vec::new();
        let ghost spec = spec_from_dialog(
            items_view(state.list_items@),
            state.list_select_enabled,
            fields_view(state.text_fields@),
            boxes_view(state.checkboxes@),
            selects_view(state.selects@),
            emit_inputs,
        );
        if state.list_select_enabled {
            let mut i: usize = 0;
            while i < state.list_items.len()
                invariant
                    i <= state.list_items.len(),
                    list_selections@.map_values(|p: (String, bool)| (p.0@, p.1))
                        == items_view(state.list_items@).take(i as int).map_values(
                        |it: ListItemV| (it.title, it.selected),
                    ),
                decreases state.list_items.len() - i,
            {
                let ghost before = list_selections@;
                let it = &state.list_items[i];
                list_selections.push((it.title.clone(), it.selected));
                assert(list_selections@.map_values(|p: (String, bool)| (p.0@, p.1))
                    =~= before.map_values(|p: (String, bool)| (p.0@, p.1)).push(
                    (it.title@, it.selected),
                ));
                assert(items_view(state.list_items@).take(i + 1).map_values(
                    |it: ListItemV| (it.title, it.selected),
                ) =~= items_view(state.list_items@).take(i as int).map_values(
                    |it: ListItemV| (it.title, it.selected),
                ).push((it.title@, it.selected)));
                i = i + 1;
            }
            assert(items_view(state.list_items@).take(state.list_items.len() as int)
                =~= items_view(state.list_items@));
        } else {
            assert(list_selections@.map_values(|p: (String, bool)| (p.0@, p.1)) =~= Seq::<(Seq<char>, bool)>::empty());
        }
        if emit_inputs {
            let mut i: usize = 0;
            assert(textfields@.map_values(|p: (String, String)| (p.0@, p.1@))
                =~= fields_view(state.text_fields@).take(0).map_values(|f: TextFieldV| (f.name, f.value)));
            while i < state.text_fields.len()
                invariant
                    i <= state.text_fields.len(),
                    textfields@.map_values(|p: (String, String)| (p.0@, p.1@))
                        == fields_view(state.text_fields@).take(i as int).map_values(
                        |f: TextFieldV| (f.name, f.value),
                    ),
                decreases state.text_fields.len() - i,
            {
                let ghost before = textfields@;
                let f = &state.text_fields[i];
                textfields.push((f.name.clone(), f.value.clone()));
                assert(textfields@.map_values(|p: (String, String)| (p.0@, p.1@))
                    =~= before.map_values(|p: (String, String)| (p.0@, p.1@)).push(
                    (f.name@, f.value@),
                ));
                assert(fields_view(state.text_fields@).take(i + 1).map_values(
                    |f: TextFieldV| (f.name, f.value),
                ) =~= fields_view(state.text_fields@).take(i as int).map_values(
                    |f: TextFieldV| (f.name, f.value),
                ).push((f.name@, f.value@)));
                i = i + 1;
            }
            assert(fields_view(state.text_fields@).take(state.text_fields.len() as int)
                =~= fields_view(state.text_fields@));
            let mut i: usize = 0;
            assert(checkboxes@.map_values(|p: (String, bool)| (p.0@, p.1))
                =~= boxes_view(state.checkboxes@).take(0).map_values(|c: CheckboxV| (c.name, c.checked)));
            while i < state.checkboxes.len()
                invariant
                    i <= state.checkboxes.len(),
                    checkboxes@.map_values(|p: (String, bool)| (p.0@, p.1))
                        == boxes_view(state.checkboxes@).take(i as int).map_values(
                        |c: CheckboxV| (c.name, c.checked),
                    ),
                decreases state.checkboxes.len() - i,
            {
                let ghost before = checkboxes@;
                let c = &state.checkboxes[i];
                checkboxes.push((c.name.clone(), c.checked));
                assert(checkboxes@.map_values(|p: (String, bool)| (p.0@, p.1)) =~= before.map_values(
                    |p: (String, bool)| (p.0@, p.1),
                ).push((c.name@, c.checked)));
                assert(boxes_view(state.checkboxes@).take(i + 1).map_values(
                    |c: CheckboxV| (c.name, c.checked),
                ) =~= boxes_view(state.checkboxes@).take(i as int).map_values(
                    |c: CheckboxV| (c.name, c.checked),
                ).push((c.name@, c.checked)));
                i = i + 1;
            }
            assert(boxes_view(state.checkboxes@).take(state.checkboxes.len() as int)
                =~= boxes_view(state.checkboxes@));
            let mut i: usize = 0;
            assert(selects@.map_values(|s: SelectResult| s@)
                =~= selects_view(state.selects@).take(0).map_values(|s: SelectV| select_result(s)));
            while i < state.selects.len()
                invariant
                    i <= state.selects.len(),
                    selects@.map_values(|s: SelectResult| s@) == selects_view(
                        state.selects@,
                    ).take(i as int).map_values(|s: SelectV| select_result(s)),
                decreases state.selects.len() - i,
            {
                let ghost before = selects@;
                let s = &state.selects[i];
                let r = SelectResult {
                    name: s.name.clone(),
                    selected_value: s.selected.clone(),
                    selected_index: position_of(&s.values, &s.selected),
                };
                selects.push(r);
                assert(r@ == select_result(s@));
                assert(selects@.map_values(|s: SelectResult| s@) =~= before.map_values(
                    |s: SelectResult| s@,
                ).push(r@));
                assert(selects_view(state.selects@).take(i + 1).map_values(
                    |s: SelectV| select_result(s),
                ) =~= selects_view(state.selects@).take(i as int).map_values(
                    |s: SelectV| select_result(s),
                ).push(select_result(s@)));
                i = i + 1;
            }
            assert(selects_view(state.selects@).take(state.selects.len() as int) =~= selects_view(
                state.selects@,
            ));
        } else {
            assert(textfields@.map_values(|p: (String, String)| (p.0@, p.1@)) =~= Seq::<(Seq<char>, Seq<char>)>::empty());
            assert(selects@.map_values(|s: SelectResult| s@) =~= Seq::<SelectResultV>::empty());
            assert(checkboxes@.map_values(|p: (String, bool)| (p.0@, p.1)) =~= Seq::<(Seq<char>, bool)>::empty());
        }
        let input = UserInput { textfields, selects, list_selections, checkboxes };
        assert(input@ == spec);
        input
    }

    /// Default (non-`--json`) output lines, exactly as swiftDialog appends them.
    pub fn plain_lines(&self) -> (r: Vec<String>)
        ensures
            r@.map_values(|l: String| l@) == spec_plain_lines(self@),
    {
        let mut out: Vec<String> = Vec::new();
        assert(out@.map_values(|l: String| l@) =~= Seq::<Seq<char>>::empty());
        push_field_lines(&mut out, &self.textfields);
        let ghost after_fields = out@.map_values(|l: String| l@);
        if self.selects.len() == 1 {
            let s = &self.selects[0];
            let mut a = String::new();
            push_quoted(&mut a, "SelectedOption");
            push_text(&mut a, " : ");
            push_quoted(&mut a, s.selected_value.as_str());
            let mut b = String::new();
            push_quoted(&mut b, "SelectedIndex");
            push_text(&mut b, " : ");
            push_int(&mut b, s.selected_index);
            out.push(a);
            out.push(b);
            assert(legacy_lines(self@.selects) =~= seq![a@, b@]);
            assert(out@.map_values(|l: String| l@) =~= after_fields + legacy_lines(self@.selects));
        } else {
            assert(after_fields + legacy_lines(self@.selects) =~= after_fields);
        }
        push_select_lines(&mut out, &self.selects);
        push_flag_lines(&mut out, &self.list_selections);
        push_flag_lines(&mut out, &self.checkboxes);
        out
    }

    /// The `--json` output object.
    pub fn json_object(&self) -> (r: JsonObject)
        ensures
            entries_view(r.entries@) == spec_json_entries(self@),
    {
        let mut out: Vec<(String, OutputValue)> = Vec::new();
        let ghost u = self@;
        let ghost t1 = u.textfields.map_values(|p: (Seq<char>, Seq<char>)| (p.0, OutputValueV::Text(p.1)));
        let mut i: usize = 0;
        assert(entries_view(out@) =~= t1.take(0));
        while i < self.textfields.len()
            invariant
                i <= self.textfields.len(),
                u == self@,
                t1 == u.textfields.map_values(|p: (Seq<char>, Seq<char>)| (p.0, OutputValueV::Text(p.1))),
                entries_view(out@) == t1.take(i as int),
            decreases self.textfields.len() - i,
        {
            let ghost before = out@;
            out.push((self.textfields[i].0.clone(), OutputValue::Text(self.textfields[i].1.clone())));
            assert(entries_view(out@) =~= entries_view(before).push(t1[i as int]));
            assert(t1.take(i + 1) =~= t1.take(i as int).push(t1[i as int]));
            i = i + 1;
        }
        assert(t1.take(self.textfields.len() as int) =~= t1);
        if self.selects.len() == 1 {
            let s = &self.selects[0];
            out.push((String::from_str("SelectedOption"), OutputValue::Text(s.selected_value.clone())));
            out.push((String::from_str("SelectedIndex"), OutputValue::Number(s.selected_index)));
            assert(entries_view(out@) =~= t1 + legacy_entries(u.selects));
        } else {
            assert(t1 + legacy_entries(u.selects) =~= t1);
        }
        let ghost start = entries_view(out@);
        let ghost t2 = u.selects.map_values(
            |s: SelectResultV| (s.name, OutputValueV::Selection { value: s.value, index: s.index }),
        );
        let mut i: usize = 0;
        assert(start + t2.take(0) =~= start);
        while i < self.selects.len()
            invariant
                i <= self.selects.len(),
                u == self@,
                t2 == u.selects.map_values(
                    |s: SelectResultV| (s.name, OutputValueV::Selection { value: s.value, index: s.index }),
                ),
                entries_view(out@) == start + t2.take(i as int),
            decreases self.selects.len() - i,
        {
            let ghost before = out@;
            let s = &self.selects[i];
            out.push(
                (
                    s.name.clone(),
                    OutputValue::Selection {
                        selected_value: s.selected_value.clone(),
                        selected_index: s.selected_index,
                    },
                ),
            );
            assert(entries_view(out@) =~= entries_view(before).push(t2[i as int]));
            assert(start + t2.take(i + 1) =~= (start + t2.take(i as int)).push(t2[i as int]));
            i = i + 1;
        }
        assert(t2.take(self.selects.len() as int) =~= t2);
        push_flag_entries(&mut out, &self.list_selections);
        push_flag_entries(&mut out, &self.checkboxes);
        JsonObject { entries: out }
    }

    /// The final stdout payload: under `--json` the object as
    /// `serde_json` pretty-prints it, else the plain lines.
    pub fn render(&self, as_json: bool) -> (r: String)
        ensures
            as_json ==> r@ == json_text(spec_json_entries(self@)),
            !as_json ==> r@ == join_lines(spec_plain_lines(self@)),
    {
        if as_json {
            render_json(&self.json_object())
        } else {
            self.render_plain()
        }
    }

    /// The default (non-`--json`) stdout payload: the plain lines joined
    /// with newlines.
    pub fn render_plain(&self) -> (r: String)
        ensures
            r@ == join_lines(spec_plain_lines(self@)),
    {
        let lines = self.plain_lines();
        let ghost lv = lines@.map_values(|l: String| l@);
        let mut out = String::new();
        let mut i: usize = 0;
        assert(lv.take(0) =~= Seq::<Seq<char>>::empty());
        while i < lines.len()
            invariant
                i <= lines.len(),
                lv == lines@.map_values(|l: String| l@),
                out@ == join_lines(lv.take(i as int)),
            decreases lines.len() - i,
        {
            assert(lv.take(i + 1).drop_last() =~= lv.take(i as int));
            assert(lv.take(i + 1).last() == lines@[i as int]@);
            if i > 0 {
                push_char(&mut out, '\n');
            } else {
                assert(lv.take(1) =~= seq![lv[0]]);
            }
            push_text(&mut out, lines[i].as_str());
            i = i + 1;
        }
        assert(lv.take(lines.len() as int) =~= lv);
        out
    }

    /// Whether nothing is emitted.
    pub fn is_empty(&self) -> (r: bool)
        ensures
            r == (self.textfields@.len() == 0 && self.selects@.len() == 0
                && self.list_selections@.len() == 0 && self.checkboxes@.len() == 0),
    {
        self.textfields.len() == 0 && self.selects.len() == 0 && self.list_selections.len() == 0
            && self.checkboxes.len() == 0
    }
}

/// The text `serde_json::to_string_pretty` prints for the `--json` object
/// made of these insertions, in order, into a `serde_json::Map`.
pub uninterp spec fn json_text(entries: Seq<(Seq<char>, OutputValueV)>) -> Seq<char>;

/// `serde_json::to_string_pretty` of the `--json` object: the insertions go
/// into a `serde_json::Map` in order (a later one for a key replaces the
/// earlier), a select's value as the nested object
/// `{"selectedValue": .., "selectedIndex": ..}`. Claimed: the text is
/// [`json_text`] of the insertions.
#[verifier::external_body]
fn render_json(o: &JsonObject) -> (r: String)
    ensures
        r@ == json_text(entries_view(o.entries@)),
{
    let map: serde_json::Map<String, serde_json::Value> = o.entries.iter().map(
        |(k, v)| (k.clone(), json_of_output(v)),
    ).collect();
    serde_json::to_string_pretty(&map).unwrap_or_default()
}

/// One output value as a `serde_json::Value`, variant for variant; what the
/// printed object holds is claimed only through [`render_json`].
#[verifier::external_body]
fn json_of_output(v: &OutputValue) -> serde_json::Value {
    match v {
        OutputValue::Text(t) => serde_json::Value::String(t.clone()),
        OutputValue::Flag(b) => serde_json::Value::Bool(*b),
        OutputValue::Number(n) => serde_json::Value::from(*n),
        OutputValue::Selection { selected_value, selected_index } => serde_json::Value::Object(
            serde_json::Map::from_iter([
                (String::from("selectedValue"), serde_json::Value::String(selected_value.clone())),
                (String::from("selectedIndex"), serde_json::Value::from(*selected_index)),
            ]),
        ),
    }
}

} // verus!
