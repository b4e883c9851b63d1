//! Command-file verb parsing and application onto the dialog state. Lines
//! that parse to no known verb are ignored: malformed commands never stop
//! processing.

use crate::number::{parse_decimal, parse_usize, spec_parse_decimal, spec_parse_usize, Decimal};
use crate::elements::or_else;
use crate::state::{
    items_view, new_item, spec_alignment, Alignment, ButtonV, DialogState, DialogV, IconV,
    ListItemState, ListItemV, ProgressState, TimerState,
};
use crate::text::{
    chars_of, find_in, str_eq, lower_range, lower_text, range_is, rfind_in, rsplit_once, split_on,
    split_once, split_ranges, string_of, trim, trim_bounds, trim_start, trim_start_from,
};
use vstd::prelude::*;
use vstd::string::*;

verus! {

broadcast use vstd::string::group_string_axioms;

#[derive(Debug, Clone, Copy, PartialEq)]
pub enum ProgressCmd {
    SetTo(Decimal),
    Increment(Decimal),
    Decrement(Decimal),
    /// reset / indeterminate
    Reset,
    Complete,
    /// delete/remove/hide/disable
    Hide,
    /// create/show/enable
    Show,
}

#[derive(Debug, Clone, Copy, PartialEq, Eq, Default, Structural)]
pub enum ListAction {
    #[default]
    Update,
    Add,
    Delete,
}

#[derive(Debug, Clone, PartialEq, Default)]
pub struct ListItemUpdate {
    pub action: ListAction,
    /// Row addressed by index (`index: <n>`) ...
    pub index: Option<usize>,
    /// ... or by title (`title: <t>`; also the new title for `add`).
    pub title: Option<String>,
    pub status: Option<String>,
    pub status_text: Option<String>,
    pub progress: Option<Decimal>,
}

#[derive(Debug, Clone, Copy, PartialEq)]
pub enum TimerCmd {
    SetTo(Decimal),
    Hide,
}

#[derive(Debug, Clone, PartialEq)]
pub enum Command {
    Title(String),
    Subtitle(String),
    Message { text: String, append: bool },
    Icon(String),
    IconAlpha(Decimal),
    IconSize(Decimal),
    Progress(ProgressCmd),
    ProgressText(String),
    Button1Text(String),
    Button2Text(String),
    Button1Enabled(bool),
    Button2Enabled(bool),
    InfoText(String),
    Alignment(Alignment),
    Width(Decimal),
    Height(Decimal),
    Position(String),
    QuitKey(String),
    Timer(TimerCmd),
    ListItem(ListItemUpdate),
    /// `list: a,b,c` replaces all rows; `list: clear` empties.
    ListReplace(Vec<String>),
    Quit,
    Activate,
}

/// [`ListItemUpdate`] as plain values.
pub struct ListUpdV {
    pub action: ListAction,
    pub index: Option<usize>,
    pub title: Option<Seq<char>>,
    pub status: Option<Seq<char>>,
    pub status_text: Option<Seq<char>>,
    pub progress: Option<int>,
}

pub open spec fn sv(o: Option<String>) -> Option<Seq<char>> {
    match o {
        Some(s) => Some(s@),
        None => None,
    }
}

pub open spec fn dv(o: Option<Decimal>) -> Option<int> {
    match o {
        Some(d) => Some(d.value()),
        None => None,
    }
}

impl View for ListItemUpdate {
    type V = ListUpdV;

    open spec fn view(&self) -> ListUpdV {
        ListUpdV {
            action: self.action,
            index: self.index,
            title: sv(self.title),
            status: sv(self.status),
            status_text: sv(self.status_text),
            progress: dv(self.progress),
        }
    }
}

/// [`ProgressCmd`] with amounts as thousandths.
pub enum ProgressV {
    SetTo(int),
    Increment(int),
    Decrement(int),
    Reset,
    Complete,
    Hide,
    Show,
}

impl View for ProgressCmd {
    type V = ProgressV;

    open spec fn view(&self) -> ProgressV {
        match self {
            ProgressCmd::SetTo(d) => ProgressV::SetTo(d.value()),
            ProgressCmd::Increment(d) => ProgressV::Increment(d.value()),
            ProgressCmd::Decrement(d) => ProgressV::Decrement(d.value()),
            ProgressCmd::Reset => ProgressV::Reset,
            ProgressCmd::Complete => ProgressV::Complete,
            ProgressCmd::Hide => ProgressV::Hide,
            ProgressCmd::Show => ProgressV::Show,
        }
    }
}

/// [`TimerCmd`] with seconds as thousandths.
pub enum TimerV {
    SetTo(int),
    Hide,
}

impl View for TimerCmd {
    type V = TimerV;

    open spec fn view(&self) -> TimerV {
        match self {
            TimerCmd::SetTo(d) => TimerV::SetTo(d.value()),
            TimerCmd::Hide => TimerV::Hide,
        }
    }
}

/// [`Command`] as plain values.
pub enum CommandV {
    Title(Seq<char>),
    Subtitle(Seq<char>),
    Message { text: Seq<char>, append: bool },
    Icon(Seq<char>),
    IconAlpha(int),
    IconSize(int),
    Progress(ProgressV),
    ProgressText(Seq<char>),
    Button1Text(Seq<char>),
    Button2Text(Seq<char>),
    Button1Enabled(bool),
    Button2Enabled(bool),
    InfoText(Seq<char>),
    Alignment(Alignment),
    Width(int),
    Height(int),
    Position(Seq<char>),
    QuitKey(Seq<char>),
    Timer(TimerV),
    ListItem(ListUpdV),
    ListReplace(Seq<Seq<char>>),
    Quit,
    Activate,
}

impl View for Command {
    type V = CommandV;

    open spec fn view(&self) -> CommandV {
        match self {
            Command::Title(s) => CommandV::Title(s@),
            Command::Subtitle(s) => CommandV::Subtitle(s@),
            Command::Message { text, append } => CommandV::Message { text: text@, append: *append },
            Command::Icon(s) => CommandV::Icon(s@),
            Command::IconAlpha(d) => CommandV::IconAlpha(d.value()),
            Command::IconSize(d) => CommandV::IconSize(d.value()),
            Command::Progress(p) => CommandV::Progress(p@),
            Command::ProgressText(s) => CommandV::ProgressText(s@),
            Command::Button1Text(s) => CommandV::Button1Text(s@),
            Command::Button2Text(s) => CommandV::Button2Text(s@),
            Command::Button1Enabled(b) => CommandV::Button1Enabled(*b),
            Command::Button2Enabled(b) => CommandV::Button2Enabled(*b),
            Command::InfoText(s) => CommandV::InfoText(s@),
            Command::Alignment(a) => CommandV::Alignment(*a),
            Command::Width(d) => CommandV::Width(d.value()),
            Command::Height(d) => CommandV::Height(d.value()),
            Command::Position(s) => CommandV::Position(s@),
            Command::QuitKey(s) => CommandV::QuitKey(s@),
            Command::Timer(t) => CommandV::Timer(t@),
            Command::ListItem(u) => CommandV::ListItem(u@),
            Command::ListReplace(v) => CommandV::ListReplace(v@.map_values(|s: String| s@)),
            Command::Quit => CommandV::Quit,
            Command::Activate => CommandV::Activate,
        }
    }
}

/// A `listitem:` argument with nothing set yet.
pub open spec fn empty_upd() -> ListUpdV {
    ListUpdV {
        action: ListAction::Update,
        index: None,
        title: None,
        status: None,
        status_text: None,
        progress: None,
    }
}

/// One comma-separated piece of a `listitem:` argument. The flag says the
/// last `key: value` piece had a known key.
pub open spec fn li_step(st: (ListUpdV, bool), part: Seq<char>) -> (ListUpdV, bool) {
    let part = trim(part);
    match split_once(part, ':') {
        Some((k, v)) => {
            let v = trim(v);
            let k = lower_text(trim(k));
            if k == "title"@ {
                (ListUpdV { title: Some(v), ..st.0 }, true)
            } else if k == "index"@ {
                (ListUpdV { index: spec_parse_usize(v), ..st.0 }, true)
            } else if k == "status"@ {
                (ListUpdV { status: Some(v), ..st.0 }, true)
            } else if k == "statustext"@ {
                (ListUpdV { status_text: Some(v), ..st.0 }, true)
            } else if k == "progress"@ {
                (ListUpdV { progress: spec_parse_decimal(v), ..st.0 }, true)
            } else {
                (st.0, false)
            }
        },
        None => {
            let p = lower_text(part);
            if p == "add"@ {
                (ListUpdV { action: ListAction::Add, ..st.0 }, st.1)
            } else if p == "delete"@ {
                (ListUpdV { action: ListAction::Delete, ..st.0 }, st.1)
            } else {
                st
            }
        },
    }
}

pub open spec fn li_fold(parts: Seq<Seq<char>>) -> (ListUpdV, bool)
    decreases parts.len(),
{
    if parts.len() == 0 {
        (empty_upd(), false)
    } else {
        li_step(li_fold(parts.drop_last()), parts.last())
    }
}

/// `listitem:` argument forms:
/// keyed — `title: X, status: success, statustext: Done`,
///         `index: 2, progress: 50`, `add, title: X, status: wait`,
///         `delete, title: X` / `delete, index: 0`;
/// legacy — `<title>: <status>` (split at the last colon).
/// A row must be addressed by title or index.
pub open spec fn spec_parse_listitem(arg: Seq<char>) -> Option<ListUpdV> {
    let (u0, keyed) = li_fold(split_on(arg, ','));
    let u = if !keyed && u0.action == ListAction::Update {
        match rsplit_once(arg, ':') {
            Some((t, st)) => Some(ListUpdV { title: Some(trim(t)), status: Some(trim(st)), ..u0 }),
            None => None,
        }
    } else {
        Some(u0)
    };
    match u {
        Some(u) => if u.title is Some || u.index is Some {
            Some(u)
        } else {
            None
        },
        None => None,
    }
}

/// `button1:`/`button2:` argument: `enable` or `disable`, any case.
pub open spec fn spec_parse_enabled(arg: Seq<char>) -> Option<bool> {
    if lower_text(arg) == "enable"@ {
        Some(true)
    } else if lower_text(arg) == "disable"@ {
        Some(false)
    } else {
        None
    }
}

/// The non-empty trimmed pieces, in order.
pub open spec fn nonempty_trimmed(parts: Seq<Seq<char>>) -> Seq<Seq<char>>
    decreases parts.len(),
{
    if parts.len() == 0 {
        Seq::empty()
    } else {
        let rest = nonempty_trimmed(parts.drop_last());
        if trim(parts.last()).len() > 0 {
            rest.push(trim(parts.last()))
        } else {
            rest
        }
    }
}

/// The `progress:` argument.
pub open spec fn spec_progress_arg(a: Seq<char>) -> Option<ProgressV> {
    let l = lower_text(a);
    if l == "increment"@ {
        Some(ProgressV::Increment(1000))
    } else if l == "decrement"@ {
        Some(ProgressV::Decrement(1000))
    } else if l == "reset"@ || l == "indeterminate"@ {
        Some(ProgressV::Reset)
    } else if l == "complete"@ {
        Some(ProgressV::Complete)
    } else if l == "delete"@ || l == "remove"@ || l == "hide"@ || l == "disable"@ {
        Some(ProgressV::Hide)
    } else if l == "create"@ || l == "show"@ || l == "enable"@ {
        Some(ProgressV::Show)
    } else {
        match spec_parse_decimal(l) {
            Some(n) => Some(ProgressV::SetTo(n)),
            None => None,
        }
    }
}

/// A verb with a decimal argument.
pub open spec fn decimal_cmd(a: Seq<char>, f: spec_fn(int) -> CommandV) -> Option<CommandV> {
    match spec_parse_decimal(a) {
        Some(n) => Some(f(n)),
        None => None,
    }
}

/// What one command-file line says, for a `verb: argument` line with a known verb.
pub open spec fn spec_verb(verb: Seq<char>, arg: Seq<char>) -> Option<CommandV> {
    if verb == "title"@ {
        Some(CommandV::Title(arg))
    } else if verb == "subtitle"@ {
        Some(CommandV::Subtitle(arg))
    } else if verb == "message"@ {
        if arg.len() > 0 && arg[0] == '+' {
            Some(
                CommandV::Message {
                    text: trim_start(arg.subrange(1, arg.len() as int)),
                    append: true,
                },
            )
        } else {
            Some(CommandV::Message { text: arg, append: false })
        }
    } else if verb == "icon"@ {
        Some(CommandV::Icon(arg))
    } else if verb == "iconalpha"@ {
        decimal_cmd(arg, |n: int| CommandV::IconAlpha(n))
    } else if verb == "iconsize"@ {
        decimal_cmd(arg, |n: int| CommandV::IconSize(n))
    } else if verb == "progress"@ {
        match spec_progress_arg(arg) {
            Some(p) => Some(CommandV::Progress(p)),
            None => None,
        }
    } else if verb == "progresstext"@ {
        Some(CommandV::ProgressText(arg))
    } else if verb == "button1text"@ {
        Some(CommandV::Button1Text(arg))
    } else if verb == "button2text"@ {
        Some(CommandV::Button2Text(arg))
    } else if verb == "button1"@ {
        match spec_parse_enabled(arg) {
            Some(b) => Some(CommandV::Button1Enabled(b)),
            None => None,
        }
    } else if verb == "button2"@ {
        match spec_parse_enabled(arg) {
            Some(b) => Some(CommandV::Button2Enabled(b)),
            None => None,
        }
    } else if verb == "infotext"@ {
        Some(CommandV::InfoText(arg))
    } else if verb == "alignment"@ {
        Some(CommandV::Alignment(spec_alignment(arg)))
    } else if verb == "width"@ {
        decimal_cmd(arg, |n: int| CommandV::Width(n))
    } else if verb == "height"@ {
        decimal_cmd(arg, |n: int| CommandV::Height(n))
    } else if verb == "position"@ {
        Some(CommandV::Position(arg))
    } else if verb == "quitkey"@ {
        Some(CommandV::QuitKey(arg))
    } else if verb == "timer"@ {
        if lower_text(arg) == "hide"@ {
            Some(CommandV::Timer(TimerV::Hide))
        } else {
            match spec_parse_decimal(lower_text(arg)) {
                Some(n) => Some(CommandV::Timer(TimerV::SetTo(n))),
                None => None,
            }
        }
    } else if verb == "quit"@ {
        Some(CommandV::Quit)
    } else if verb == "activate"@ {
        Some(CommandV::Activate)
    } else if verb == "list"@ {
        if lower_text(arg) == "clear"@ {
            Some(CommandV::ListReplace(Seq::empty()))
        } else {
            Some(CommandV::ListReplace(nonempty_trimmed(split_on(arg, ','))))
        }
    } else if verb == "listitem"@ {
        match spec_parse_listitem(arg) {
            Some(u) => Some(CommandV::ListItem(u)),
            None => None,
        }
    } else {
        None
    }
}

/// What a command-file line says: `verb: argument` split at the first colon,
/// the verb trimmed and lower-cased, the argument trimmed.
pub open spec fn spec_parse_line(line: Seq<char>) -> Option<CommandV> {
    match split_once(trim(line), ':') {
        Some((verb, arg)) => spec_verb(lower_text(trim(verb)), trim(arg)),
        None => None,
    }
}

/// Whether `v` is exactly `lit`.
fn is(v: &Vec<char>, lit: &str) -> (r: bool)
    ensures
        r == (v@ == lit@),
{
    let r = range_is(v, 0, v.len(), lit);
    assert(v@.subrange(0, v@.len() as int) =~= v@);
    r
}

/// `enable`/`disable` in any case.
fn parse_enabled(v: &Vec<char>, a: usize, b: usize) -> (r: Option<bool>)
    requires
        a <= b <= v.len(),
    ensures
        r == spec_parse_enabled(v@.subrange(a as int, b as int)),
{
    let l = lower_range(v, a, b);
    if is(&l, "enable") {
        Some(true)
    } else if is(&l, "disable") {
        Some(false)
    } else {
        None
    }
}

fn decimal_of(v: &Vec<char>) -> (r: Option<Decimal>)
    ensures
        r matches Some(d) ==> spec_parse_decimal(v@) == Some(d.value()),
        r is None ==> spec_parse_decimal(v@) is None,
{
    assert(v@.subrange(0, v@.len() as int) =~= v@);
    parse_decimal(v, 0, v.len())
}

fn progress_arg(v: &Vec<char>, a: usize, b: usize) -> (r: Option<ProgressCmd>)
    requires
        a <= b <= v.len(),
    ensures
        r matches Some(p) ==> spec_progress_arg(v@.subrange(a as int, b as int)) == Some(p@),
        r is None ==> spec_progress_arg(v@.subrange(a as int, b as int)) is None,
        r matches Some(ProgressCmd::Increment(d)) ==> d.value() == 1000,
        r matches Some(ProgressCmd::Decrement(d)) ==> d.value() == 1000,
{
    let l = lower_range(v, a, b);
    if is(&l, "increment") {
        Some(ProgressCmd::Increment(Decimal { thousandths: 1000 }))
    } else if is(&l, "decrement") {
        Some(ProgressCmd::Decrement(Decimal { thousandths: 1000 }))
    } else if is(&l, "reset") || is(&l, "indeterminate") {
        Some(ProgressCmd::Reset)
    } else if is(&l, "complete") {
        Some(ProgressCmd::Complete)
    } else if is(&l, "delete") || is(&l, "remove") || is(&l, "hide") || is(&l, "disable") {
        Some(ProgressCmd::Hide)
    } else if is(&l, "create") || is(&l, "show") || is(&l, "enable") {
        Some(ProgressCmd::Show)
    } else {
        match decimal_of(&l) {
            Some(n) => Some(ProgressCmd::SetTo(n)),
            None => None,
        }
    }
}

/// The non-empty trimmed pieces of `v[a..b].split(',')`.
fn list_titles(v: &Vec<char>, a: usize, b: usize) -> (r: Vec<String>)
    requires
        a <= b <= v.len(),
    ensures
        r@.map_values(|s: String| s@) == nonempty_trimmed(
            split_on(v@.subrange(a as int, b as int), ','),
        ),
{
    let ranges = split_ranges(v, a, b, ',');
    let ghost parts = split_on(v@.subrange(a as int, b as int), ',');
    let mut r: Vec<String> = Vec::new();
    let mut i: usize = 0;
    while i < ranges.len()
        invariant
            i <= ranges.len() == parts.len(),
            a <= b <= v.len(),
            parts == split_on(v@.subrange(a as int, b as int), ','),
            forall|k: int|
                0 <= k < ranges@.len() ==> a <= (#[trigger] ranges@[k]).0 <= ranges@[k].1 <= b
                    && v@.subrange(ranges@[k].0 as int, ranges@[k].1 as int) == parts[k],
            r@.map_values(|s: String| s@) == nonempty_trimmed(parts.take(i as int)),
        decreases ranges.len() - i,
    {
        let (pa, pb) = ranges[i];
        let (ta, tb) = trim_bounds(v, pa, pb);
        assert(parts.take(i + 1).drop_last() =~= parts.take(i as int));
        assert(parts.take(i + 1).last() == parts[i as int]);
        if tb > ta {
            let t = string_of(v, ta, tb);
            let ghost before = r@;
            r.push(t);
            assert(r@.map_values(|s: String| s@) =~= before.map_values(|s: String| s@).push(t@));
        }
        i = i + 1;
    }
    assert(parts.take(ranges.len() as int) =~= parts);
    r
}

/// Parse a `listitem:` argument `v[a..b]`.
fn parse_listitem(v: &Vec<char>, a: usize, b: usize) -> (r: Option<ListItemUpdate>)
    requires
        a <= b <= v.len(),
    ensures
        r matches Some(u) ==> spec_parse_listitem(v@.subrange(a as int, b as int)) == Some(u@),
        r is None ==> spec_parse_listitem(v@.subrange(a as int, b as int)) is None,
{
    let ghost arg = v@.subrange(a as int, b as int);
    let ranges = split_ranges(v, a, b, ',');
    let ghost parts = split_on(arg, ',');
    let mut upd = ListItemUpdate {
        action: ListAction::Update,
        index: None,
        title: None,
        status: None,
        status_text: None,
        progress: None,
    };
    let mut keyed = false;
    let mut i: usize = 0;
    while i < ranges.len()
        invariant
            i <= ranges.len() == parts.len(),
            a <= b <= v.len(),
            arg == v@.subrange(a as int, b as int),
            parts == split_on(arg, ','),
            forall|k: int|
                0 <= k < ranges@.len() ==> a <= (#[trigger] ranges@[k]).0 <= ranges@[k].1 <= b
                    && v@.subrange(ranges@[k].0 as int, ranges@[k].1 as int) == parts[k],
            (upd@, keyed) == li_fold(parts.take(i as int)),
        decreases ranges.len() - i,
    {
        let (pa, pb) = ranges[i];
        assert(parts.take(i + 1).drop_last() =~= parts.take(i as int));
        assert(parts.take(i + 1).last() == parts[i as int]);
        let (ta, tb) = trim_bounds(v, pa, pb);
        let ghost part = v@.subrange(ta as int, tb as int);
        match find_in(v, ta, tb, ':') {
            Some(c) => {
                assert(part.subrange(0, c as int) =~= v@.subrange(ta as int, ta + c));
                assert(part.subrange(c + 1, part.len() as int) =~= v@.subrange(
                    ta + c + 1,
                    tb as int,
                ));
                let (ka, kb) = trim_bounds(v, ta, ta + c);
                let k = lower_range(v, ka, kb);
                let (va, vb) = trim_bounds(v, ta + c + 1, tb);
                if is(&k, "title") {
                    upd.title = Some(string_of(v, va, vb));
                    keyed = true;
                } else if is(&k, "index") {
                    upd.index = parse_usize(v, va, vb);
                    keyed = true;
                } else if is(&k, "status") {
                    upd.status = Some(string_of(v, va, vb));
                    keyed = true;
                } else if is(&k, "statustext") {
                    upd.status_text = Some(string_of(v, va, vb));
                    keyed = true;
                } else if is(&k, "progress") {
                    upd.progress = parse_decimal(v, va, vb);
                    keyed = true;
                } else {
                    keyed = false;
                }
            },
            None => {
                let l = lower_range(v, ta, tb);
                if is(&l, "add") {
                    upd.action = ListAction::Add;
                } else if is(&l, "delete") {
                    upd.action = ListAction::Delete;
                }
            },
        }
        i = i + 1;
    }
    assert(parts.take(ranges.len() as int) =~= parts);
    if !keyed && upd.action == ListAction::Update {
        match rfind_in(v, a, b, ':') {
            Some(c) => {
                assert(arg.subrange(0, c as int) =~= v@.subrange(a as int, a + c));
                assert(arg.subrange(c + 1, arg.len() as int) =~= v@.subrange(a + c + 1, b as int));
                let (ta, tb) = trim_bounds(v, a, a + c);
                let (sa, sb) = trim_bounds(v, a + c + 1, b);
                upd.title = Some(string_of(v, ta, tb));
                upd.status = Some(string_of(v, sa, sb));
            },
            None => return None,
        }
    }
    if upd.title.is_some() || upd.index.is_some() {
        Some(upd)
    } else {
        None
    }
}

/// Parse one command-file line. Returns None for blank/unknown/malformed
/// lines (callers log and continue).
pub fn parse_line(line: &str) -> (r: Option<Command>)
    ensures
        r matches Some(c) ==> spec_parse_line(line@) == Some(c@),
        r is None ==> spec_parse_line(line@) is None,
        r matches Some(Command::Progress(ProgressCmd::Increment(d))) ==> d.value() == 1000,
        r matches Some(Command::Progress(ProgressCmd::Decrement(d))) ==> d.value() == 1000,
{
    let v = chars_of(line);
    assert(v@.subrange(0, v@.len() as int) =~= line@);
    let (la, lb) = trim_bounds(&v, 0, v.len());
    let ghost tl = v@.subrange(la as int, lb as int);
    let c = match find_in(&v, la, lb, ':') {
        Some(c) => c,
        None => return None,
    };
    assert(tl.subrange(0, c as int) =~= v@.subrange(la as int, la + c));
    assert(tl.subrange(c + 1, tl.len() as int) =~= v@.subrange(la + c + 1, lb as int));
    let (va, vb) = trim_bounds(&v, la, la + c);
    let verb = lower_range(&v, va, vb);
    let (a, b) = trim_bounds(&v, la + c + 1, lb);
    let ghost arg = v@.subrange(a as int, b as int);
    if is(&verb, "title") {
        Some(Command::Title(string_of(&v, a, b)))
    } else if is(&verb, "subtitle") {
        Some(Command::Subtitle(string_of(&v, a, b)))
    } else if is(&verb, "message") {
        if a < b && v[a] == '+' {
            let s = trim_start_from(&v, a + 1, b);
            assert(arg.subrange(1, arg.len() as int) =~= v@.subrange(a + 1, b as int));
            Some(Command::Message { text: string_of(&v, s, b), append: true })
        } else {
            Some(Command::Message { text: string_of(&v, a, b), append: false })
        }
    } else if is(&verb, "icon") {
        Some(Command::Icon(string_of(&v, a, b)))
    } else if is(&verb, "iconalpha") {
        match parse_decimal(&v, a, b) {
            Some(n) => Some(Command::IconAlpha(n)),
            None => None,
        }
    } else if is(&verb, "iconsize") {
        match parse_decimal(&v, a, b) {
            Some(n) => Some(Command::IconSize(n)),
            None => None,
        }
    } else if is(&verb, "progress") {
        match progress_arg(&v, a, b) {
            Some(p) => Some(Command::Progress(p)),
            None => None,
        }
    } else if is(&verb, "progresstext") {
        Some(Command::ProgressText(string_of(&v, a, b)))
    } else if is(&verb, "button1text") {
        Some(Command::Button1Text(string_of(&v, a, b)))
    } else if is(&verb, "button2text") {
        Some(Command::Button2Text(string_of(&v, a, b)))
    } else if is(&verb, "button1") {
        match parse_enabled(&v, a, b) {
            Some(e) => Some(Command::Button1Enabled(e)),
            None => None,
        }
    } else if is(&verb, "button2") {
        match parse_enabled(&v, a, b) {
            Some(e) => Some(Command::Button2Enabled(e)),
            None => None,
        }
    } else if is(&verb, "infotext") {
        Some(Command::InfoText(string_of(&v, a, b)))
    } else if is(&verb, "alignment") {
        let t = string_of(&v, a, b);
        Some(Command::Alignment(Alignment::parse_str(t.as_str())))
    } else if is(&verb, "width") {
        match parse_decimal(&v, a, b) {
            Some(n) => Some(Command::Width(n)),
            None => None,
        }
    } else if is(&verb, "height") {
        match parse_decimal(&v, a, b) {
            Some(n) => Some(Command::Height(n)),
            None => None,
        }
    } else if is(&verb, "position") {
        Some(Command::Position(string_of(&v, a, b)))
    } else if is(&verb, "quitkey") {
        Some(Command::QuitKey(string_of(&v, a, b)))
    } else if is(&verb, "timer") {
        let l = lower_range(&v, a, b);
        if is(&l, "hide") {
            Some(Command::Timer(TimerCmd::Hide))
        } else {
            match decimal_of(&l) {
                Some(n) => Some(Command::Timer(TimerCmd::SetTo(n))),
                None => None,
            }
        }
    } else if is(&verb, "quit") {
        Some(Command::Quit)
    } else if is(&verb, "activate") {
        Some(Command::Activate)
    } else if is(&verb, "list") {
        let l = lower_range(&v, a, b);
        if is(&l, "clear") {
            let e: Vec<String> = Vec::new();
            assert(e@.map_values(|s: String| s@) =~= Seq::<Seq<char>>::empty());
            Some(Command::ListReplace(e))
        } else {
            Some(Command::ListReplace(list_titles(&v, a, b)))
        }
    } else if is(&verb, "listitem") {
        match parse_listitem(&v, a, b) {
            Some(u) => Some(Command::ListItem(u)),
            None => None,
        }
    } else {
        None
    }
}

/// The progress bar that verbs create when none is shown yet.
pub open spec fn default_progress() -> crate::state::ProgressV {
    crate::state::ProgressV { total: 100_000, current: None, text: Seq::empty(), visible: true }
}

/// A progress verb applied to a bar.
pub open spec fn progress_apply(pr: crate::state::ProgressV, p: ProgressV) -> crate::state::ProgressV {
    let cur = match pr.current {
        Some(c) => c,
        None => 0,
    };
    match p {
        ProgressV::SetTo(v) => crate::state::ProgressV { current: Some(v), ..pr },
        ProgressV::Increment(x) => crate::state::ProgressV {
            current: Some(
                if cur + x < pr.total {
                    cur + x
                } else {
                    pr.total
                },
            ),
            ..pr
        },
        ProgressV::Decrement(x) => crate::state::ProgressV {
            current: Some(
                if cur - x > 0 {
                    cur - x
                } else {
                    0
                },
            ),
            ..pr
        },
        ProgressV::Reset => crate::state::ProgressV { current: None, ..pr },
        ProgressV::Complete => crate::state::ProgressV { current: Some(pr.total), ..pr },
        ProgressV::Hide => crate::state::ProgressV { visible: false, ..pr },
        ProgressV::Show => crate::state::ProgressV { visible: true, ..pr },
    }
}

/// `i` is the first row titled `t`.
pub open spec fn is_first_titled(items: Seq<ListItemV>, t: Seq<char>, i: int) -> bool {
    &&& 0 <= i < items.len()
    &&& items[i].title == t
    &&& forall|j: int| 0 <= j < i ==> (#[trigger] items[j]).title != t
}

/// The first row titled `t`.
pub open spec fn first_titled(items: Seq<ListItemV>, t: Seq<char>) -> Option<int> {
    if exists|i: int| is_first_titled(items, t, i) {
        Some(choose|i: int| is_first_titled(items, t, i))
    } else {
        None
    }
}

/// The rows whose title is not `t`, in order.
pub open spec fn remove_titled(items: Seq<ListItemV>, t: Seq<char>) -> Seq<ListItemV>
    decreases items.len(),
{
    if items.len() == 0 {
        Seq::empty()
    } else {
        (if items[0].title == t {
            Seq::empty()
        } else {
            seq![items[0]]
        }) + remove_titled(items.subrange(1, items.len() as int), t)
    }
}

/// The row an update addresses: by index if given (when in range), else by title.
pub open spec fn update_target(items: Seq<ListItemV>, u: ListUpdV) -> Option<int> {
    match u.index {
        Some(i) => if i < items.len() {
            Some(i as int)
        } else {
            None
        },
        None => match u.title {
            Some(t) => first_titled(items, t),
            None => None,
        },
    }
}

/// A row after an update: new status, status text, and progress (which
/// also sets the status to `progress`).
pub open spec fn update_item(it: ListItemV, u: ListUpdV) -> ListItemV {
    let it1 = match u.status {
        Some(st) => ListItemV { status: st, ..it },
        None => it,
    };
    let it2 = match u.status_text {
        Some(t) => ListItemV { status_text: t, ..it1 },
        None => it1,
    };
    match u.progress {
        Some(p) => ListItemV { progress: Some(p), status: "progress"@, ..it2 },
        None => it2,
    }
}

/// A `listitem:` verb applied to the rows.
pub open spec fn list_apply(items: Seq<ListItemV>, u: ListUpdV) -> Seq<ListItemV> {
    match u.action {
        ListAction::Add => items.push(
            ListItemV {
                title: or_else(u.title, Seq::empty()),
                subtitle: None,
                icon: None,
                status: or_else(u.status, Seq::empty()),
                status_text: or_else(u.status_text, Seq::empty()),
                progress: u.progress,
                selected: false,
            },
        ),
        ListAction::Delete => match u.index {
            Some(i) => if i < items.len() {
                items.remove(i as int)
            } else {
                items
            },
            None => match u.title {
                Some(t) => remove_titled(items, t),
                None => items,
            },
        },
        ListAction::Update => match update_target(items, u) {
            Some(i) => items.update(i, update_item(items[i], u)),
            None => items,
        },
    }
}

/// Verbs the window shell handles (size, position, focus, quit); they leave
/// the content state alone.
pub open spec fn is_shell_command(c: CommandV) -> bool {
    match c {
        CommandV::Width(_) | CommandV::Height(_) | CommandV::Position(_) | CommandV::Quit
        | CommandV::Activate => true,
        _ => false,
    }
}

/// Where a progress bar stands (0 when indeterminate or absent).
pub open spec fn progress_position(p: Option<crate::state::ProgressV>) -> int {
    match p {
        Some(x) => match x.current {
            Some(c) => c,
            None => 0,
        },
        None => 0,
    }
}

/// A progress step whose result is a representable `Decimal` (every step
/// the command file produces is).
pub open spec fn step_fits(d: DialogV, c: CommandV) -> bool {
    match c {
        CommandV::Progress(ProgressV::Increment(x)) => progress_position(d.progress) + x >= i64::MIN,
        CommandV::Progress(ProgressV::Decrement(x)) => progress_position(d.progress) - x <= i64::MAX,
        _ => true,
    }
}

/// Whether [`apply`] takes `cmd` in `state`: a progress step must land on a
/// representable `Decimal`.
pub fn fits(state: &DialogState, cmd: &Command) -> (r: bool)
    ensures
        r == step_fits(state@, cmd@),
{
    let cur: i128 = match &state.progress {
        Some(p) => match p.current {
            Some(c) => c.thousandths as i128,
            None => 0,
        },
        None => 0,
    };
    assert(cur == progress_position(state@.progress));
    match cmd {
        Command::Progress(ProgressCmd::Increment(x)) => cur + x.thousandths as i128 >= i64::MIN as i128,
        Command::Progress(ProgressCmd::Decrement(x)) => cur - x.thousandths as i128 <= i64::MAX as i128,
        _ => true,
    }
}

/// A command applied to the dialog content.
pub open spec fn spec_apply(d: DialogV, c: CommandV) -> DialogV {
    let pr = match d.progress {
        Some(x) => x,
        None => default_progress(),
    };
    match c {
        CommandV::Title(t) => DialogV {
            title: if t == "none"@ {
                None
            } else {
                Some(t)
            },
            ..d
        },
        CommandV::Subtitle(t) => DialogV { subtitle: Some(t), ..d },
        CommandV::Message { text, append } => DialogV {
            message: if append {
                d.message + "\n\n"@ + text
            } else {
                text
            },
            ..d
        },
        CommandV::Icon(src) => DialogV { icon: IconV { source: src, hidden: src == "none"@, ..d.icon }, ..d },
        CommandV::IconAlpha(a) => DialogV { icon: IconV { alpha: a, ..d.icon }, ..d },
        CommandV::IconSize(z) => DialogV { icon: IconV { size: z, ..d.icon }, ..d },
        CommandV::Progress(p) => DialogV { progress: Some(progress_apply(pr, p)), ..d },
        CommandV::ProgressText(t) => DialogV {
            progress: Some(crate::state::ProgressV { text: t, ..pr }),
            ..d
        },
        CommandV::Button1Text(t) => DialogV { button1: ButtonV { text: t, ..d.button1 }, ..d },
        CommandV::Button2Text(t) => DialogV { button2: ButtonV { text: t, ..d.button2 }, ..d },
        CommandV::Button1Enabled(e) => DialogV { button1: ButtonV { enabled: e, ..d.button1 }, ..d },
        CommandV::Button2Enabled(e) => DialogV { button2: ButtonV { enabled: e, ..d.button2 }, ..d },
        CommandV::InfoText(t) => DialogV { info_text: Some(t), ..d },
        CommandV::Alignment(a) => DialogV { message_alignment: a, ..d },
        CommandV::QuitKey(k) => DialogV { quit_key: k, ..d },
        CommandV::Timer(TimerV::SetTo(secs)) => DialogV {
            timer: Some(
                crate::state::TimerV {
                    seconds: secs,
                    hide_bar: match d.timer {
                        Some(t) => t.hide_bar,
                        None => false,
                    },
                },
            ),
            ..d
        },
        CommandV::Timer(TimerV::Hide) => DialogV { timer: None, ..d },
        CommandV::ListReplace(titles) => DialogV {
            list_items: titles.map_values(|t: Seq<char>| new_item(t)),
            ..d
        },
        CommandV::ListItem(u) => DialogV { list_items: list_apply(d.list_items, u), ..d },
        _ => d,
    }
}

proof fn lemma_first_titled_unique(items: Seq<ListItemV>, t: Seq<char>, i: int, j: int)
    requires
        is_first_titled(items, t, i),
        is_first_titled(items, t, j),
    ensures
        i == j,
{
    if i < j {
        assert(items[i].title != t);
    } else if j < i {
        assert(items[j].title != t);
    }
}

/// The index of the first row titled `t`.
fn find_titled(items: &Vec<ListItemState>, t: &String) -> (r: Option<usize>)
    ensures
        r matches Some(i) ==> first_titled(items_view(items@), t@) == Some(i as int),
        r is None ==> first_titled(items_view(items@), t@) is None,
{
    let ghost iv = items_view(items@);
    let mut i: usize = 0;
    while i < items.len()
        invariant
            i <= items.len(),
            iv == items_view(items@),
            forall|j: int| 0 <= j < i ==> (#[trigger] iv[j]).title != t@,
        decreases items.len() - i,
    {
        assert(iv[i as int] == items@[i as int]@);
        if items[i].title == *t {
            proof {
                assert(is_first_titled(iv, t@, i as int));
                let c = choose|c: int| is_first_titled(iv, t@, c);
                lemma_first_titled_unique(iv, t@, i as int, c);
            }
            return Some(i);
        }
        i = i + 1;
    }
    None
}

/// Drops every row titled `t`.
fn remove_rows_titled(items: &mut Vec<ListItemState>, t: &String)
    ensures
        items_view(final(items)@) == remove_titled(items_view(old(items)@), t@),
{
    let ghost orig = items_view(items@);
    let mut rest: Vec<ListItemState> = Vec::new();
    std::mem::swap(&mut rest, items);
    let mut kept: Vec<ListItemState> = Vec::new();
    assert(items_view(kept@) + remove_titled(items_view(rest@), t@) =~= remove_titled(orig, t@));
    while rest.len() > 0
        invariant
            items_view(kept@) + remove_titled(items_view(rest@), t@) == remove_titled(orig, t@),
        decreases rest.len(),
    {
        let ghost rv = items_view(rest@);
        let it = rest.remove(0);
        assert(items_view(rest@) =~= rv.subrange(1, rv.len() as int));
        assert(rv[0] == it@);
        let ghost before = kept@;
        if it.title != *t {
            kept.push(it);
            assert(items_view(kept@) =~= items_view(before) + seq![it@]);
            assert(items_view(kept@) + remove_titled(items_view(rest@), t@) =~= items_view(before)
                + remove_titled(rv, t@));
        } else {
            assert(items_view(kept@) + remove_titled(items_view(rest@), t@) =~= items_view(before)
                + remove_titled(rv, t@));
        }
    }
    assert(remove_titled(items_view(rest@), t@) =~= Seq::<ListItemV>::empty());
    assert(items_view(kept@) =~= remove_titled(orig, t@));
    *items = kept;
}

/// Apply a `listitem:` update to the rows.
fn apply_list_update(items: &mut Vec<ListItemState>, upd: &ListItemUpdate)
    ensures
        items_view(final(items)@) == list_apply(items_view(old(items)@), upd@),
{
    let ghost iv = items_view(items@);
    match upd.action {
        ListAction::Add => {
            let item = ListItemState {
                title: match &upd.title {
                    Some(t) => t.clone(),
                    None => String::new(),
                },
                subtitle: None,
                icon: None,
                status: match &upd.status {
                    Some(t) => t.clone(),
                    None => String::new(),
                },
                status_text: match &upd.status_text {
                    Some(t) => t.clone(),
                    None => String::new(),
                },
                progress: upd.progress,
                selected: false,
            };
            items.push(item);
            assert(items_view(items@) =~= iv.push(item@));
        },
        ListAction::Delete => {
            if let Some(i) = upd.index {
                if i < items.len() {
                    items.remove(i);
                    assert(items_view(items@) =~= iv.remove(i as int));
                }
            } else if let Some(t) = &upd.title {
                remove_rows_titled(items, t);
            }
        },
        ListAction::Update => {
            let target = match upd.index {
                Some(i) => if i < items.len() {
                    Some(i)
                } else {
                    None
                },
                None => match &upd.title {
                    Some(t) => find_titled(items, t),
                    None => None,
                },
            };
            if let Some(i) = target {
                let mut item = items.remove(i);
                assert(item@ == iv[i as int]);
                if let Some(st) = &upd.status {
                    item.status = st.clone();
                }
                if let Some(t) = &upd.status_text {
                    item.status_text = t.clone();
                }
                if let Some(p) = upd.progress {
                    item.progress = Some(p);
                    item.status = String::from_str("progress");
                }
                assert(item@ == update_item(iv[i as int], upd@));
                items.insert(i, item);
                assert(items_view(items@) =~= iv.update(i as int, item@));
            }
        },
    }
}

pub open spec fn opt_progress_view(o: Option<ProgressState>) -> Option<crate::state::ProgressV> {
    match o {
        Some(x) => Some(x@),
        None => None,
    }
}

pub open spec fn progress_or_default(o: Option<ProgressState>) -> crate::state::ProgressV {
    match o {
        Some(x) => x@,
        None => default_progress(),
    }
}

fn progress_or_new(o: Option<ProgressState>) -> (r: ProgressState)
    ensures
        r@ == progress_or_default(o),
{
    match o {
        Some(x) => x,
        None => ProgressState {
            total: Decimal { thousandths: 100_000 },
            current: None,
            text: String::new(),
            visible: true,
        },
    }
}

/// A progress verb applied to the current bar (or a fresh one).
fn progress_step(o: Option<ProgressState>, p: &ProgressCmd) -> (r: ProgressState)
    requires
        p@ matches ProgressV::Increment(x) ==> progress_position(opt_progress_view(o)) + x >= i64::MIN,
        p@ matches ProgressV::Decrement(x) ==> progress_position(opt_progress_view(o)) - x <= i64::MAX,
    ensures
        r@ == progress_apply(progress_or_default(o), p@),
{
    let mut pr = progress_or_new(o);
    let cur: i128 = match pr.current {
        Some(c) => c.thousandths as i128,
        None => 0,
    };
    match p {
        ProgressCmd::SetTo(v) => pr.current = Some(*v),
        ProgressCmd::Increment(x) => {
            let n = cur + x.thousandths as i128;
            pr.current = Some(
                if n < pr.total.thousandths as i128 {
                    Decimal { thousandths: n as i64 }
                } else {
                    pr.total
                },
            );
        },
        ProgressCmd::Decrement(x) => {
            let n = cur - x.thousandths as i128;
            pr.current = Some(
                if n > 0 {
                    Decimal { thousandths: n as i64 }
                } else {
                    Decimal { thousandths: 0 }
                },
            );
        },
        ProgressCmd::Reset => pr.current = None,
        ProgressCmd::Complete => pr.current = Some(pr.total),
        ProgressCmd::Hide => pr.visible = false,
        ProgressCmd::Show => pr.visible = true,
    }
    pr
}

/// The current bar (or a fresh one) with new text.
fn progress_with_text(o: Option<ProgressState>, t: &String) -> (r: ProgressState)
    ensures
        r@ == (crate::state::ProgressV { text: t@, ..progress_or_default(o) }),
{
    let mut pr = progress_or_new(o);
    pr.text = t.clone();
    pr
}

/// Fresh rows with these titles.
fn items_titled(titles: &Vec<String>) -> (items: Vec<ListItemState>)
    ensures
        items_view(items@) == titles@.map_values(|s: String| s@).map_values(
            |t: Seq<char>| new_item(t),
        ),
{
    let mut items: Vec<ListItemState> = Vec::new();
    let mut i: usize = 0;
    while i < titles.len()
        invariant
            i <= titles.len(),
            items_view(items@) == titles@.take(i as int).map_values(|s: String| s@).map_values(
                |t: Seq<char>| new_item(t),
            ),
        decreases titles.len() - i,
    {
        let it = ListItemState::new(titles[i].clone());
        let ghost before = items@;
        items.push(it);
        assert(items_view(items@) =~= items_view(before).push(it@));
        assert(titles@.take(i + 1).map_values(|s: String| s@).map_values(
            |t: Seq<char>| new_item(t),
        ) =~= titles@.take(i as int).map_values(|s: String| s@).map_values(
            |t: Seq<char>| new_item(t),
        ).push(new_item(titles@[i as int]@)));
        i = i + 1;
    }
    assert(titles@.take(titles.len() as int) =~= titles@);
    items
}

/// Mutate state per the command. Window-level commands (size/position/
/// activate/quit) are handled by the shell; this covers content state.
/// Returns false if the command needs shell-side handling.
#[verifier::spinoff_prover]
#[verifier::rlimit(100)]
pub fn apply(state: &mut DialogState, cmd: &Command) -> (handled: bool)
    requires
        step_fits(old(state)@, cmd@),
    ensures
        final(state)@ == spec_apply(old(state)@, cmd@),
        handled == !is_shell_command(cmd@),
{
    let ghost d = state@;
    match cmd {
        Command::Title(t) => {
            state.title = if str_eq(t.as_str(), "none") {
                None
            } else {
                Some(t.clone())
            };
        },
        Command::Subtitle(t) => state.subtitle = Some(t.clone()),
        Command::Message { text, append } => {
            if *append {
                state.message.append("\n\n");
                state.message.append(text.as_str());
            } else {
                state.message = text.clone();
            }
        },
        Command::Icon(src) => {
            state.icon.source = src.clone();
            state.icon.hidden = str_eq(src.as_str(), "none");
        },
        Command::IconAlpha(a) => state.icon.alpha = *a,
        Command::IconSize(z) => state.icon.size = *z,
        Command::Progress(p) => {
            let pr = state.progress.take();
            state.progress = Some(progress_step(pr, p));
        },
        Command::ProgressText(t) => {
            let pr = state.progress.take();
            state.progress = Some(progress_with_text(pr, t));
        },
        Command::Button1Text(t) => state.button1.text = t.clone(),
        Command::Button2Text(t) => state.button2.text = t.clone(),
        Command::Button1Enabled(e) => state.button1.enabled = *e,
        Command::Button2Enabled(e) => state.button2.enabled = *e,
        Command::InfoText(t) => state.info_text = Some(t.clone()),
        Command::Alignment(a) => state.message_alignment = *a,
        Command::QuitKey(k) => state.quit_key = k.clone(),
        Command::Timer(TimerCmd::SetTo(secs)) => {
            let hide_bar = match &state.timer {
                Some(t) => t.hide_bar,
                None => false,
            };
            state.timer = Some(TimerState { seconds: *secs, hide_bar });
        },
        Command::Timer(TimerCmd::Hide) => state.timer = None,
        Command::ListReplace(titles) => state.list_items = items_titled(titles),
        Command::ListItem(upd) => apply_list_update(&mut state.list_items, upd),
        Command::Width(_) | Command::Height(_) | Command::Position(_) | Command::Quit
        | Command::Activate => return false,
    }
    true
}

} // verus!
