//! Properties of the library as a whole, stated over the models its
//! functions' contracts use, and proved.

use crate::commandfile::{
    after_len, after_text, carried, complete_lines, lemma_non_blank_append, lemma_one_line_is_carried,
    lemma_split_append, lemma_split_last_has_no_separator, lemma_split_nonempty, TailV,
};
use crate::commands::{
    is_shell_command, remove_titled, spec_apply, spec_parse_line, spec_verb, CommandV, ListAction, ListUpdV, ProgressV,
};
use crate::compat::{spec_warnings, warning_for, DegradeReason, Platform};
use crate::config::{spec_json_field, spec_present, spec_value, Config, Json};
use crate::icon::{spec_builtin, spec_classify, spec_plan, spec_resolve_symbol, IconPlanV, IconRenderV};
use crate::number::spec_parse_decimal;
use crate::options::{is_first_long, lemma_by_long_is, spec_by_long, spec_canonical, table, Kind, Platforms};
use crate::output::{
    legacy_lines, lookup, position, spec_from_dialog, spec_json_entries, spec_plain_lines,
    OutputValueV, SelectResultV, UserInputV,
};
use crate::parser::{parse_from, spec_lookup, spec_parse, values_of, ArgsModel};
use crate::regex_lite::{class_matches_spec, is_split, matches_from, spec_matches, tokens_from, ClassV, TokenV};
use crate::session::{spec_submit, submitted_selects, submitted_texts};
use crate::state::{spec_dialog, spec_mini, CheckboxV, DialogV, ListItemV, SelectV, TextFieldV};
use crate::text::{
    ends_with, ascii_lower, ascii_lower_char, is_ascii_text, is_first_index, is_ws, lemma_find_some, lemma_trim_edges, no_char,
    lemma_trim_fixed, lower_text, split_on, starts_with, trim,
};
use crate::validation::{field_error, required_message, spec_validate};
use vstd::prelude::*;

verus! {

/// The model a scan adds to one it starts from.
pub open spec fn extend(m: ArgsModel, p: ArgsModel) -> ArgsModel {
    ArgsModel { flags: m.flags + p.flags, pairs: m.pairs + p.pairs, ignored: m.ignored + p.ignored }
}

/// Scanning from a non-empty model appends to it what scanning from
/// scratch yields.
pub proof fn lemma_scan_extends(m: ArgsModel, args: Seq<Seq<char>>)
    ensures
        parse_from(m, args) == extend(m, spec_parse(args)),
    decreases args.len(),
{
    let e = ArgsModel::empty();
    if args.len() == 0 {
        assert(extend(m, e) =~= m);
    } else {
        let rest1 = args.subrange(1, args.len() as int);
        match spec_lookup(args[0]) {
            None => {
                let m1 = ArgsModel { ignored: m.ignored.push(args[0]), ..m };
                let e1 = ArgsModel { ignored: e.ignored.push(args[0]), ..e };
                lemma_scan_extends(m1, rest1);
                lemma_scan_extends(e1, rest1);
                assert(extend(m1, spec_parse(rest1)) =~= extend(m, extend(e1, spec_parse(rest1))));
            },
            Some(def) => {
                let c = spec_canonical(def);
                match c.kind {
                    Kind::Flag => {
                        let m1 = ArgsModel { flags: m.flags.push(c.long@), ..m };
                        let e1 = ArgsModel { flags: e.flags.push(c.long@), ..e };
                        lemma_scan_extends(m1, rest1);
                        lemma_scan_extends(e1, rest1);
                        assert(extend(m1, spec_parse(rest1)) =~= extend(
                            m,
                            extend(e1, spec_parse(rest1)),
                        ));
                    },
                    Kind::WithValue => {
                        if args.len() >= 2 {
                            let rest2 = args.subrange(2, args.len() as int);
                            let m1 = ArgsModel { pairs: m.pairs.push((c.long@, args[1])), ..m };
                            let e1 = ArgsModel { pairs: e.pairs.push((c.long@, args[1])), ..e };
                            lemma_scan_extends(m1, rest2);
                            lemma_scan_extends(e1, rest2);
                            assert(extend(m1, spec_parse(rest2)) =~= extend(
                                m,
                                extend(e1, spec_parse(rest2)),
                            ));
                        } else {
                            let m1 = ArgsModel {
                                pairs: m.pairs.push((c.long@, Seq::empty())),
                                ..m
                            };
                            let e1 = ArgsModel {
                                pairs: e.pairs.push((c.long@, Seq::empty())),
                                ..e
                            };
                            lemma_scan_extends(m1, rest1);
                            lemma_scan_extends(e1, rest1);
                            assert(extend(m1, spec_parse(rest1)) =~= extend(
                                m,
                                extend(e1, spec_parse(rest1)),
                            ));
                        }
                    },
                }
            },
        }
    }
}

/// A token that names no option is recorded as ignored and changes nothing
/// else: the rest of the command line parses as if it were absent.
pub proof fn law_stray_token_is_only_ignored(args: Seq<Seq<char>>)
    requires
        args.len() > 0,
        spec_lookup(args[0]) is None,
    ensures
        spec_parse(args).flags == spec_parse(args.subrange(1, args.len() as int)).flags,
        spec_parse(args).pairs == spec_parse(args.subrange(1, args.len() as int)).pairs,
        spec_parse(args).ignored == seq![args[0]] + spec_parse(
            args.subrange(1, args.len() as int),
        ).ignored,
{
    let rest = args.subrange(1, args.len() as int);
    let e = ArgsModel::empty();
    lemma_scan_extends(ArgsModel { ignored: e.ignored.push(args[0]), ..e }, rest);
    assert(e.flags + spec_parse(rest).flags =~= spec_parse(rest).flags);
    assert(e.pairs + spec_parse(rest).pairs =~= spec_parse(rest).pairs);
    assert(e.ignored.push(args[0]) =~= seq![args[0]]);
}

/// An option that takes a value consumes the next token as its value,
/// whatever that token is (even one that names an option), and is recorded
/// under its canonical name.
pub proof fn law_value_takes_next_token(tok: Seq<char>, v: Seq<char>, rest: Seq<Seq<char>>)
    requires
        spec_lookup(tok) matches Some(def) && spec_canonical(def).kind == Kind::WithValue,
    ensures
        spec_parse(seq![tok, v] + rest).pairs == seq![(spec_canonical(spec_lookup(tok).unwrap()).long@, v)]
            + spec_parse(rest).pairs,
        spec_parse(seq![tok, v] + rest).flags == spec_parse(rest).flags,
        spec_parse(seq![tok, v] + rest).ignored == spec_parse(rest).ignored,
{
    let args = seq![tok, v] + rest;
    let c = spec_canonical(spec_lookup(tok).unwrap());
    let e = ArgsModel::empty();
    assert(args[0] == tok);
    assert(args[1] == v);
    assert(args.subrange(2, args.len() as int) =~= rest);
    lemma_scan_extends(ArgsModel { pairs: e.pairs.push((c.long@, v)), ..e }, rest);
    assert(e.pairs.push((c.long@, v)) =~= seq![(c.long@, v)]);
    assert(e.flags + spec_parse(rest).flags =~= spec_parse(rest).flags);
    assert(e.ignored + spec_parse(rest).ignored =~= spec_parse(rest).ignored);
}

/// Giving a value option twice keeps both values in order, and the later
/// one is the option's value.
pub proof fn law_repeated_values_accumulate(tok: Seq<char>, a: Seq<char>, b: Seq<char>)
    requires
        spec_lookup(tok) matches Some(def) && spec_canonical(def).kind == Kind::WithValue,
    ensures
        spec_parse(seq![tok, a, tok, b]).values(spec_canonical(spec_lookup(tok).unwrap()).long@)
            == seq![a, b],
        spec_parse(seq![tok, a, tok, b]).value(spec_canonical(spec_lookup(tok).unwrap()).long@)
            == Some(b),
{
    let n = spec_canonical(spec_lookup(tok).unwrap()).long@;
    let rest = seq![tok, b];
    assert(seq![tok, a, tok, b] =~= seq![tok, a] + rest);
    law_value_takes_next_token(tok, a, rest);
    assert(rest =~= seq![tok, b] + Seq::<Seq<char>>::empty());
    law_value_takes_next_token(tok, b, Seq::<Seq<char>>::empty());
    let pairs = spec_parse(seq![tok, a, tok, b]).pairs;
    assert(spec_parse(Seq::<Seq<char>>::empty()).pairs =~= Seq::<(Seq<char>, Seq<char>)>::empty());
    assert(pairs =~= seq![(n, a), (n, b)]);
    assert(pairs.drop_last() =~= seq![(n, a)]);
    assert(pairs.drop_last().drop_last() =~= Seq::<(Seq<char>, Seq<char>)>::empty());
    reveal_with_fuel(values_of, 3);
    assert(values_of(pairs, n) =~= seq![a, b]);
}

/// A value given on the command line wins over the JSON input and the
/// table default.
pub proof fn law_cli_wins_over_json(c: &Config, name: Seq<char>, v: Seq<char>)
    requires
        c.cli.model().value(name) == Some(v),
    ensures
        spec_value(c, name) == Some(v),
{
}

/// A JSON `false` for an option not on the command line leaves it absent.
pub proof fn law_json_false_is_absent(c: &Config, name: Seq<char>)
    requires
        !c.cli.model().present(name),
        spec_json_field(c.json, name) == Some(Json::Bool(false)),
    ensures
        !spec_present(c, name),
{
}

/// Window-shell verbs (size, position, focus, quit) leave the content alone.
pub proof fn law_shell_commands_keep_content(d: DialogV, c: CommandV)
    requires
        is_shell_command(c),
    ensures
        spec_apply(d, c) == d,
{
}

/// Incrementing never carries progress past the bar's total, and
/// `complete` fills it exactly.
pub proof fn law_progress_bounded_by_total(d: DialogV, x: int)
    ensures
        spec_apply(d, CommandV::Progress(ProgressV::Increment(x))).progress.unwrap().current.unwrap()
            <= spec_apply(d, CommandV::Progress(ProgressV::Increment(x))).progress.unwrap().total,
        spec_apply(d, CommandV::Progress(ProgressV::Complete)).progress.unwrap().current
            == Some(spec_apply(d, CommandV::Progress(ProgressV::Complete)).progress.unwrap().total),
{
}

/// `title: none` hides the title area.
pub proof fn law_title_none_hides(d: DialogV)
    ensures
        spec_apply(d, CommandV::Title("none"@)).title is None,
{
}

/// On any exit but button1 (without `--alwaysreturninput`) no text field,
/// select or checkbox value is reported; list selections are reported
/// exactly when list selection is enabled, whatever the exit.
pub proof fn law_exit_withholds_inputs(
    items: Seq<ListItemV>,
    list_select: bool,
    fields: Seq<TextFieldV>,
    boxes: Seq<CheckboxV>,
    selects: Seq<SelectV>,
)
    ensures
        spec_from_dialog(items, list_select, fields, boxes, selects, false).textfields.len() == 0,
        spec_from_dialog(items, list_select, fields, boxes, selects, false).selects.len() == 0,
        spec_from_dialog(items, list_select, fields, boxes, selects, false).checkboxes.len() == 0,
        spec_from_dialog(items, list_select, fields, boxes, selects, false).list_selections
            == spec_from_dialog(items, list_select, fields, boxes, selects, true).list_selections,
        !list_select ==> spec_from_dialog(items, list_select, fields, boxes, selects, true).list_selections.len() == 0,
        list_select ==> spec_from_dialog(items, list_select, fields, boxes, selects, true).list_selections.len() == items.len(),
{
}

/// The legacy `SelectedOption` / `SelectedIndex` lines appear exactly for a
/// dialog with a single select.
pub proof fn law_legacy_keys_only_for_single_select(selects: Seq<SelectResultV>)
    ensures
        legacy_lines(selects).len() == (if selects.len() == 1 { 2int } else { 0int }),
{
}

/// A select's reported index is -1 exactly when its value is none of its
/// values; otherwise it is the first index holding the value.
pub proof fn law_unmatched_select_is_minus_one(values: Seq<Seq<char>>, x: Seq<char>)
    ensures
        (position(values, x) == -1) == !values.contains(x),
        position(values, x) >= 0 ==> position(values, x) < values.len() && values[position(values, x)] == x
            && forall|j: int| 0 <= j < position(values, x) ==> values[j] != x,
    decreases values.len(),
{
    if values.len() > 0 {
        let rest = values.subrange(1, values.len() as int);
        law_unmatched_select_is_minus_one(rest, x);
        if values[0] != x {
            if rest.contains(x) {
                let k = choose|k: int| 0 <= k < rest.len() && rest[k] == x;
                assert(values[k + 1] == x);
            }
            if values.contains(x) {
                let k = choose|k: int| 0 <= k < values.len() && values[k] == x;
                assert(rest[k - 1] == x);
            }
            if position(values, x) >= 0 {
                assert forall|j: int| 0 <= j < position(values, x) implies values[j] != x by {
                    if j > 0 {
                        assert(values[j] == rest[j - 1]);
                    }
                }
            }
        } else {
            assert(values[0] == x);
        }
    }
}

/// Nothing collected means nothing printed, in either output format.
pub proof fn law_no_input_no_output(u: UserInputV)
    requires
        u.textfields.len() == 0,
        u.selects.len() == 0,
        u.list_selections.len() == 0,
        u.checkboxes.len() == 0,
    ensures
        spec_plain_lines(u).len() == 0,
        spec_json_entries(u).len() == 0,
{
}

/// In the JSON object, a later insertion of a key replaces the earlier one.
pub proof fn law_json_later_key_wins(e: Seq<(Seq<char>, OutputValueV)>, k: Seq<char>, v: OutputValueV)
    ensures
        lookup(e.push((k, v)), k) == Some(v),
{
    assert(e.push((k, v)).drop_last() =~= e);
}

/// A blank optional field is never checked against its pattern.
pub proof fn law_blank_optional_field_passes(f: TextFieldV)
    requires
        !f.required,
    ensures
        field_error(f, Seq::empty()) is None,
{
}

/// A required field that is blank (or only whitespace) is reported as
/// required, whatever its pattern.
pub proof fn law_required_blank_field_blocks(f: TextFieldV, value: Seq<char>)
    requires
        f.required,
        trim(value).len() == 0,
    ensures
        field_error(f, value) == Some(required_message(f.title)),
{
}

/// A pattern the matcher cannot model (unanchored, or using syntax outside
/// its subset) never blocks the user.
pub proof fn law_unsupported_pattern_never_blocks(pattern: Seq<char>, text: Seq<char>)
    requires
        !(pattern.len() >= 2 && pattern[0] == '^' && pattern.last() == '$') || tokens_from(
            pattern.subrange(1, pattern.len() - 1),
            0,
        ) is None,
    ensures
        spec_matches(pattern, text),
{
}

/// Button1 quits exactly when the current values pass validation.
pub proof fn law_submit_accepts_iff_valid(d: DialogV)
    ensures
        (spec_submit(d) is Accept) == (spec_validate(
            d.text_fields,
            d.selects,
            submitted_texts(d.text_fields),
            submitted_selects(d.selects),
        ).len() == 0),
{
}

/// A macOS-only option on another platform warns as unavailable there, even
/// when it is otherwise implemented.
pub proof fn law_mac_only_is_unavailable_elsewhere(
    names: Seq<Seq<char>>,
    implemented: Seq<Seq<char>>,
    platform: Platform,
    k: int,
)
    requires
        0 <= k < names.len(),
        spec_by_long(names[k]) matches Some(d) && d.platforms == Platforms::MacOnly,
        platform != Platform::MacOs,
    ensures
        spec_warnings(names, implemented, platform).contains((names[k], DegradeReason::PlatformUnavailable)),
    decreases names.len(),
{
    let w = spec_warnings(names, implemented, platform);
    if k == names.len() - 1 {
        assert(warning_for(names.last(), implemented, platform) == Some(DegradeReason::PlatformUnavailable));
        assert(w.last() == (names[k], DegradeReason::PlatformUnavailable));
    } else {
        law_mac_only_is_unavailable_elsewhere(names.drop_last(), implemented, platform, k);
        let prev = spec_warnings(names.drop_last(), implemented, platform);
        let j = choose|j: int| 0 <= j < prev.len() && prev[j] == (names[k], DegradeReason::PlatformUnavailable);
        assert(w[j] == prev[j]);
    }
}

/// An implemented option that applies on this platform never warns.
pub proof fn law_implemented_options_do_not_warn(name: Seq<char>, implemented: Seq<Seq<char>>, platform: Platform)
    requires
        implemented.contains(name),
        !(spec_by_long(name).unwrap().platforms == Platforms::MacOnly && platform != Platform::MacOs),
    ensures
        warning_for(name, implemented, platform) is None,
{
}

/// The mini layout is always 540 × 128, whatever size options are given.
pub proof fn law_mini_is_540_by_128(c: &Config, p: Platform)
    requires
        spec_mini(c),
    ensures
        spec_dialog(c, p).window.width == 540_000,
        spec_dialog(c, p).window.height == 128_000,
{
}

/// An explicit, readable `--width` / `--height` wins over `--small` and
/// `--big` scaling.
pub proof fn law_explicit_size_wins(c: &Config, p: Platform, w: Seq<char>, h: Seq<char>)
    requires
        !spec_mini(c),
        spec_present(c, "width"@),
        spec_present(c, "height"@),
        spec_value(c, "width"@) == Some(w),
        spec_value(c, "height"@) == Some(h),
        spec_parse_decimal(w) is Some,
        spec_parse_decimal(h) is Some,
    ensures
        spec_dialog(c, p).window.width == spec_parse_decimal(w).unwrap(),
        spec_dialog(c, p).window.height == spec_parse_decimal(h).unwrap(),
{
}

/// Reading the command file in two pieces yields the same lines, and
/// carries the same unfinished line, as reading it at once: a line cut
/// across two polls is delivered whole by the second.
pub proof fn law_chunked_reads_match_whole(s: Seq<char>, t: Seq<char>)
    ensures
        complete_lines(s + t) == complete_lines(s) + complete_lines(carried(s) + t),
        carried(s + t) == carried(carried(s) + t),
{
    let c = '\n';
    lemma_split_append(s, t, c);
    lemma_split_nonempty(carried(s) + t, c);
    let a = split_on(s, c).drop_last();
    let b = split_on(carried(s) + t, c);
    assert((a + b).drop_last() =~= a + b.drop_last());
    assert((a + b).last() == b.last());
    lemma_non_blank_append(a, b.drop_last());
}

/// Polling a command file whose content is now `f`: its length is taken,
/// then the text from the position on. A file shorter than the position was
/// truncated and is read from the start with nothing carried. The lines
/// returned are the complete non-blank lines of the carried text followed by
/// the new text, what follows the last newline is carried, the position
/// becomes the file's length, and polling again at once yields nothing.
pub proof fn law_poll(t: TailV, f: Seq<char>)
    requires
        t.wf(),
        f.len() <= u64::MAX,
    ensures
        ({
            let n = f.len() as int;
            let o = if n < t.offset {
                0
            } else {
                t.offset as int
            };
            let p = if n < t.offset {
                Seq::<char>::empty()
            } else {
                t.partial
            };
            let t1 = after_len(t, n);
            let buf = f.subrange(t1.offset as int, n);
            let t2 = after_text(t1, n as u64, buf);
            &&& t1.offset == o && t1.partial == p && o <= n
            &&& complete_lines(t1.partial + buf) == complete_lines(p + f.subrange(o, n))
            &&& t2.offset == n
            &&& t2.partial == carried(p + f.subrange(o, n))
            &&& t2.wf()
            &&& (n == o ==> complete_lines(t1.partial + buf) == Seq::<Seq<char>>::empty())
            &&& after_len(t2, n) == t2
            &&& complete_lines(t2.partial + f.subrange(n, n)) == Seq::<Seq<char>>::empty()
        }),
{
    let n = f.len() as int;
    let t1 = after_len(t, n);
    let buf = f.subrange(t1.offset as int, n);
    let t2 = after_text(t1, n as u64, buf);
    lemma_split_last_has_no_separator(t1.partial + buf, '\n');
    if t1.offset == n {
        assert(buf =~= Seq::<char>::empty());
        assert(t1.partial + buf =~= t1.partial);
        if n < t.offset {
            assert(no_char(Seq::<char>::empty(), '\n'));
        }
        lemma_one_line_is_carried(t1.partial);
    }
    assert(f.subrange(n, n) =~= Seq::<char>::empty());
    assert(t2.partial + f.subrange(n, n) =~= t2.partial);
    lemma_one_line_is_carried(t2.partial);
}

/// `caution` shows the same glyph as `warning`, in another tint.
pub proof fn law_caution_reuses_warning_glyph()
    ensures
        spec_builtin("caution"@) matches IconRenderV::Glyph { glyph: g1, color: c1 } && spec_builtin(
            "warning"@,
        ) matches IconRenderV::Glyph { glyph: g2, color: c2 } && g1 == g2 && c1 != c2,
{
    reveal_strlit("caution");
    reveal_strlit("warning");
    reveal_strlit("#ffcc00");
    reveal_strlit("#ff9500");
    assert("#ffcc00"@[3] != "#ff9500"@[3]);
    assert("caution"@[0] != "warning"@[0]);
    assert("caution"@ != "warning"@);
    assert("#ffcc00"@ != "#ff9500"@);
}

/// `list: a,b,…` replaces the rows with exactly those titles, in order,
/// each fresh and unselected.
pub proof fn law_list_replace_sets_titles(d: DialogV, titles: Seq<Seq<char>>)
    ensures
        spec_apply(d, CommandV::ListReplace(titles)).list_items.len() == titles.len(),
        forall|i: int|
            0 <= i < titles.len() ==> (#[trigger] spec_apply(d, CommandV::ListReplace(titles)).list_items[i]).title
                == titles[i] && !spec_apply(d, CommandV::ListReplace(titles)).list_items[i].selected,
{
}

/// `message: +text` appends after a blank line; plain `message:` replaces.
pub proof fn law_message_append(d: DialogV, text: Seq<char>)
    ensures
        spec_apply(d, CommandV::Message { text, append: true }).message == d.message + "\n\n"@ + text,
        spec_apply(d, CommandV::Message { text, append: false }).message == text,
{
}

/// A button symbol resolves exactly as the icon value `SF=<symbol>` does.
pub proof fn law_button_symbol_is_an_sf_icon(x: Seq<char>)
    requires
        trim(x).len() > 0,
    ensures
        spec_plan("SF="@ + trim(x)) matches IconPlanV::Ready { render, .. } && spec_resolve_symbol(x)
            == Some(render),
{
    reveal_strlit("SF=");
    let t = trim(x);
    let s = "SF="@ + t;
    lemma_trim_edges(x);
    assert(s[0] == 'S');
    assert(!is_ws('S'));
    assert(s.last() == t.last());
    lemma_trim_fixed(s);
    assert(s.subrange(0, 3) =~= "SF="@);
    assert(starts_with(s, "SF="@));
    assert(s.subrange(3, s.len() as int) =~= t);
}

/// Button 1 is always shown; giving `--button2text` on the command line
/// shows button 2; a timer exists exactly when one is requested.
pub proof fn law_buttons_and_timer_presence(c: &Config, p: Platform)
    ensures
        spec_dialog(c, p).button1.visible,
        c.cli.model().present("button2text"@) ==> spec_dialog(c, p).button2.visible,
        (spec_dialog(c, p).timer is Some) == spec_present(c, "timer"@),
{
}

/// With no title given on the command line or in the JSON input, the dialog
/// shows the default title "An Important Message".
pub proof fn law_default_title(c: &Config, p: Platform)
    requires
        c.cli.model().value("title"@) is None,
        spec_json_field(c.json, "title"@) is None,
    ensures
        spec_dialog(c, p).title == Some("An Important Message"@),
{
    reveal_strlit("title");
    reveal_strlit("default-title");
    reveal_strlit("none");
    assert(table(0).long@ == "title"@);
    assert(is_first_long("title"@, 0));
    lemma_by_long_is("title"@, 0);
    assert("default-title"@.len() != "none"@.len());
    assert("default-title"@ != "none"@);
}

/// Reading nothing new yields no line and keeps the carried text: what a
/// tail carries is never a complete line.
pub proof fn law_reread_yields_nothing(t: TailV)
    requires
        t.wf(),
    ensures
        complete_lines(t.partial + Seq::<char>::empty()) == Seq::<Seq<char>>::empty(),
        carried(t.partial + Seq::<char>::empty()) == t.partial,
{
    assert(t.partial + Seq::<char>::empty() =~= t.partial);
    lemma_one_line_is_carried(t.partial);
}

/// The verb of a command-file line is read without regard to ASCII case:
/// `QUIT:` quits just as `quit:` does.
pub proof fn law_verb_case_is_ignored()
    ensures
        spec_parse_line("QUIT:"@) == Some(CommandV::Quit),
        spec_parse_line("quit:"@) == Some(CommandV::Quit),
{
    reveal_strlit("QUIT:");
    reveal_strlit("quit:");
    reveal_strlit("title");
    reveal_strlit("subtitle");
    reveal_strlit("message");
    reveal_strlit("icon");
    reveal_strlit("iconalpha");
    reveal_strlit("iconsize");
    reveal_strlit("progress");
    reveal_strlit("progresstext");
    reveal_strlit("button1text");
    reveal_strlit("button2text");
    reveal_strlit("button1");
    reveal_strlit("button2");
    reveal_strlit("infotext");
    reveal_strlit("alignment");
    reveal_strlit("width");
    reveal_strlit("height");
    reveal_strlit("position");
    reveal_strlit("quitkey");
    reveal_strlit("timer");
    reveal_strlit("quit");
    lemma_verb_line("QUIT:"@);
    lemma_verb_line("quit:"@);
    let upper = "QUIT:"@.subrange(0, 4);
    let lower = "quit:"@.subrange(0, 4);
    assert(is_ascii_text(upper));
    assert(is_ascii_text(lower));
    assert(ascii_lower(upper) =~= "quit"@);
    assert(ascii_lower(lower) =~= "quit"@);
    assert(lower_text(upper) == "quit"@);
    assert(lower_text(lower) == "quit"@);
    assert("quit"@[0] != "icon"@[0]);
    assert(spec_verb("quit"@, Seq::empty()) == Some(CommandV::Quit));
}

/// A five-character line of four letters and a colon splits into those
/// letters and an empty argument.
proof fn lemma_verb_line(s: Seq<char>)
    requires
        s.len() == 5,
        s[4] == ':',
        forall|k: int| 0 <= k < 4 ==> ('a' <= #[trigger] s[k] <= 'z' || 'A' <= s[k] <= 'Z'),
    ensures
        spec_parse_line(s) == spec_verb(lower_text(s.subrange(0, 4)), Seq::empty()),
{
    assert(!is_ws(s[0]) && !is_ws(s[4]));
    lemma_trim_fixed(s);
    assert(is_first_index(s, ':', 4));
    lemma_find_some(s, ':', 4);
    let v = s.subrange(0, 4);
    assert(!is_ws(v[0]) && !is_ws(v[3]));
    lemma_trim_fixed(v);
    assert(s.subrange(5, 5) =~= Seq::<char>::empty());
    assert(trim(Seq::<char>::empty()) =~= Seq::<char>::empty());
}

/// Lower-casing does not tell apart ASCII texts that differ only in the case
/// of their letters, so verbs, sub-option keys and icon keywords are read
/// without regard to ASCII case.
pub proof fn law_ascii_case_folds(a: Seq<char>, b: Seq<char>)
    requires
        is_ascii_text(a),
        is_ascii_text(b),
        a.len() == b.len(),
        forall|k: int| 0 <= k < a.len() ==> ascii_lower_char(#[trigger] a[k]) == ascii_lower_char(b[k]),
    ensures
        lower_text(a) == lower_text(b),
{
    assert(ascii_lower(a) =~= ascii_lower(b));
}

/// A bracket range `a-b` takes both its ends and everything between: a
/// character `c` with `a <= c <= b` for some range is in the class, and out
/// of its negation; a character outside every range is out of the class.
pub proof fn law_bracket_ranges_are_inclusive(ranges: Seq<(char, char)>, c: char)
    ensures
        (exists|r: int|
            0 <= r < ranges.len() && (ranges[r].0 as u32) <= (c as u32) && (c as u32) <= (
            ranges[r].1 as u32)) ==> class_matches_spec(ClassV::Bracket { ranges, negate: false }, c)
            && !class_matches_spec(ClassV::Bracket { ranges, negate: true }, c),
        (forall|r: int|
            0 <= r < ranges.len() ==> !((ranges[r].0 as u32) <= (c as u32) && (c as u32) <= (
            ranges[r].1 as u32))) ==> !class_matches_spec(ClassV::Bracket { ranges, negate: false }, c)
            && class_matches_spec(ClassV::Bracket { ranges, negate: true }, c),
        forall|r: int|
            0 <= r < ranges.len() && (ranges[r].0 as u32) <= (ranges[r].1 as u32) ==> class_matches_spec(
                ClassV::Bracket { ranges, negate: false },
                #[trigger] ranges[r].1,
            ) && class_matches_spec(ClassV::Bracket { ranges, negate: false }, ranges[r].0),
{
}

/// `listitem: delete, index: i` with `i` in range removes row `i` alone:
/// the rows before it stay in place, the rows after it move up by one, and
/// there is one row fewer. Nothing else in the dialog changes.
pub proof fn law_list_delete_by_index(d: DialogV, u: ListUpdV, i: usize)
    requires
        u.action == ListAction::Delete,
        u.index == Some(i),
        i < d.list_items.len(),
    ensures
        ({
            let after = spec_apply(d, CommandV::ListItem(u));
            &&& after.list_items.len() == d.list_items.len() - 1
            &&& forall|k: int| 0 <= k < i ==> #[trigger] after.list_items[k] == d.list_items[k]
            &&& forall|k: int| i <= k < after.list_items.len() ==> #[trigger] after.list_items[k]
                == d.list_items[k + 1]
            &&& after == DialogV { list_items: after.list_items, ..d }
        }),
{
}

/// The initial dialog hides its icon exactly when `hideicon` is present:
/// given as a command-line flag, or as a JSON key that is not `false`.
pub proof fn law_hideicon_hides_the_icon(c: &Config, p: Platform)
    ensures
        spec_dialog(c, p).icon.hidden == spec_present(c, "hideicon"@),
        c.cli.model().present("hideicon"@) ==> spec_dialog(c, p).icon.hidden,
        !c.cli.model().present("hideicon"@) && spec_json_field(c.json, "hideicon"@) is None
            ==> !spec_dialog(c, p).icon.hidden,
        spec_json_field(c.json, "hideicon"@) == Some(Json::Bool(true)) ==> spec_dialog(c, p).icon.hidden,
{
}

/// With list selection on, the exit output reports every row, in order: the
/// `k`-th list selection is row `k`'s title with row `k`'s own selected
/// flag. With it off, none is reported.
pub proof fn law_list_selections_report_each_row(
    items: Seq<ListItemV>,
    list_select: bool,
    fields: Seq<TextFieldV>,
    boxes: Seq<CheckboxV>,
    selects: Seq<SelectV>,
    emit_inputs: bool,
)
    ensures
        ({
            let u = spec_from_dialog(items, list_select, fields, boxes, selects, emit_inputs);
            &&& list_select ==> u.list_selections.len() == items.len()
            &&& list_select ==> forall|k: int|
                0 <= k < items.len() ==> #[trigger] u.list_selections[k] == (items[k].title, items[k].selected)
            &&& !list_select ==> u.list_selections.len() == 0
        }),
{
}

/// An icon value whose trimmed text starts with `http://` or `https://` is
/// a URL, and its plan is to download exactly that text (stated for ASCII
/// text, where the case-insensitive keyword checks before it are decided
/// here).
pub proof fn law_http_icons_are_downloaded(source: Seq<char>)
    requires
        starts_with(trim(source), "http://"@) || starts_with(trim(source), "https://"@),
        is_ascii_text(trim(source)),
    ensures
        spec_classify(source) == crate::icon::IconSourceV::Url(trim(source)),
        spec_plan(source) == IconPlanV::Download(trim(source)),
{
    let s = trim(source);
    reveal_strlit("http://");
    reveal_strlit("https://");
    reveal_strlit("SF=");
    reveal_strlit("none");
    reveal_strlit("default");
    reveal_strlit("warning");
    reveal_strlit("caution");
    reveal_strlit("info");
    let lower = lower_text(s);
    assert(lower.len() == s.len());
    if starts_with(s, "http://"@) {
        assert(s[0] == s.subrange(0, 7)[0]);
    } else {
        assert(s[0] == s.subrange(0, 8)[0]);
    }
    assert(s[0] == 'h');
    assert(s.subrange(0, 3) != "SF="@) by {
        assert(s.subrange(0, 3)[0] == 'h');
    }
    assert(lower[0] == ascii_lower_char(s[0]));
    assert(lower[0] == 'h');
    assert(lower != "default"@) by {
        assert("default"@[0] == 'd');
    }
    assert(lower != "warning"@) by {
        assert("warning"@[0] == 'w');
    }
    assert(lower != "caution"@) by {
        assert("caution"@[0] == 'c');
    }
}

/// Each on/off option of the initial dialog is that option's presence:
/// `button1disabled`, `button2disabled`, `enablelistselect`, `ontop`,
/// `moveable`, `resizable` and `hidetimerbar` (with a timer); button 1 is
/// always shown, the info button is always enabled, and a timer exists
/// exactly when `timer` is present.
pub proof fn law_flags_reach_the_dialog(c: &Config, p: Platform)
    ensures
        ({
            let d = spec_dialog(c, p);
            &&& d.button1.visible
            &&& d.button1.enabled == !spec_present(c, "button1disabled"@)
            &&& d.button2.enabled == !spec_present(c, "button2disabled"@)
            &&& d.info_button.enabled
            &&& d.list_select_enabled == spec_present(c, "enablelistselect"@)
            &&& d.window.ontop == spec_present(c, "ontop"@)
            &&& d.window.moveable == spec_present(c, "moveable"@)
            &&& d.window.resizable == spec_present(c, "resizable"@)
            &&& d.timer is Some == spec_present(c, "timer"@)
            &&& d.timer matches Some(t) ==> t.hide_bar == spec_present(c, "hidetimerbar"@)
            &&& d.progress is Some == spec_present(c, "progress"@)
            &&& d.subtitle == spec_value(c, "subtitle"@)
            &&& d.icon.overlay == spec_value(c, "overlayicon"@)
            &&& d.icon.source == (match spec_value(c, "icon"@) {
                Some(v) => v,
                None => "default"@,
            })
        }),
{
}

/// `listitem: delete` with an index past the last row changes nothing.
pub proof fn law_list_delete_out_of_range(d: DialogV, u: ListUpdV, i: usize)
    requires
        u.action == ListAction::Delete,
        u.index == Some(i),
        i >= d.list_items.len(),
    ensures
        spec_apply(d, CommandV::ListItem(u)) == d,
{
    assert(DialogV { list_items: d.list_items, ..d } == d);
}

/// `listitem: add` appends one unselected row carrying the given title,
/// status, status text and progress; the rows before it stay as they were.
pub proof fn law_list_add_appends(d: DialogV, u: ListUpdV)
    requires
        u.action == ListAction::Add,
    ensures
        ({
            let rows = spec_apply(d, CommandV::ListItem(u)).list_items;
            let n = d.list_items.len() as int;
            &&& rows.len() == n + 1
            &&& forall|k: int| 0 <= k < n ==> #[trigger] rows[k] == d.list_items[k]
            &&& !rows[n].selected
            &&& rows[n].progress == u.progress
            &&& u.title matches Some(t) ==> rows[n].title == t
            &&& u.title is None ==> rows[n].title.len() == 0
            &&& u.status matches Some(x) ==> rows[n].status == x
            &&& u.status_text matches Some(x) ==> rows[n].status_text == x
        }),
{
}

/// `listitem: index: i, ...` (an update) with `i` in range changes row `i`
/// alone and keeps its title and selection; a given status and status text
/// are set, and a given progress sets the progress with status `progress`.
pub proof fn law_list_update_by_index(d: DialogV, u: ListUpdV, i: usize)
    requires
        u.action == ListAction::Update,
        u.index == Some(i),
        i < d.list_items.len(),
    ensures
        ({
            let rows = spec_apply(d, CommandV::ListItem(u)).list_items;
            let row = rows[i as int];
            let was = d.list_items[i as int];
            &&& rows.len() == d.list_items.len()
            &&& forall|k: int| 0 <= k < rows.len() && k != i ==> #[trigger] rows[k] == d.list_items[k]
            &&& row.title == was.title && row.selected == was.selected && row.subtitle == was.subtitle
            &&& u.progress matches Some(x) ==> row.progress == Some(x) && row.status == "progress"@
            &&& u.progress is None ==> row.progress == was.progress
            &&& u.progress is None ==> (u.status matches Some(x) ==> row.status == x)
            &&& (u.progress is None && u.status is None) ==> row.status == was.status
            &&& u.status_text matches Some(x) ==> row.status_text == x
            &&& u.status_text is None ==> row.status_text == was.status_text
        }),
{
}

/// The exit output's inputs: with inputs emitted, the `k`-th textfield is
/// field `k`'s name and value and the `k`-th checkbox is box `k`'s name and
/// state, one per element; without, none of them is reported.
pub proof fn law_inputs_report_each_element(
    items: Seq<ListItemV>,
    list_select: bool,
    fields: Seq<TextFieldV>,
    boxes: Seq<CheckboxV>,
    selects: Seq<SelectV>,
    emit_inputs: bool,
)
    ensures
        ({
            let u = spec_from_dialog(items, list_select, fields, boxes, selects, emit_inputs);
            &&& emit_inputs ==> u.textfields.len() == fields.len() && forall|k: int|
                0 <= k < fields.len() ==> #[trigger] u.textfields[k] == (fields[k].name, fields[k].value)
            &&& emit_inputs ==> u.checkboxes.len() == boxes.len() && forall|k: int|
                0 <= k < boxes.len() ==> #[trigger] u.checkboxes[k] == (boxes[k].name, boxes[k].checked)
            &&& emit_inputs ==> u.selects.len() == selects.len() && forall|k: int|
                0 <= k < selects.len() ==> (#[trigger] u.selects[k]).name == selects[k].name
                    && u.selects[k].value == selects[k].selected
            &&& !emit_inputs ==> u.textfields.len() == 0 && u.checkboxes.len() == 0 && u.selects.len() == 0
        }),
{
}

proof fn lemma_remove_titled_filters(items: Seq<ListItemV>, t: Seq<char>)
    ensures
        remove_titled(items, t) == items.filter(|it: ListItemV| it.title != t),
    decreases items.len(),
{
    if items.len() > 0 {
        let rest = items.subrange(1, items.len() as int);
        lemma_remove_titled_filters(rest, t);
        assert(items =~= seq![items[0]] + rest);
        rest.lemma_filter_prepend(items[0], |it: ListItemV| it.title != t);
    } else {
        assert(items.filter(|it: ListItemV| it.title != t) =~= items);
    }
}

/// `listitem: delete, title: t` (no index) removes every row titled `t` and
/// keeps the others in order; no row titled `t` is left.
pub proof fn law_list_delete_by_title(d: DialogV, u: ListUpdV, t: Seq<char>)
    requires
        u.action == ListAction::Delete,
        u.index is None,
        u.title == Some(t),
    ensures
        ({
            let rows = spec_apply(d, CommandV::ListItem(u)).list_items;
            &&& rows == d.list_items.filter(|it: ListItemV| it.title != t)
            &&& forall|k: int| 0 <= k < rows.len() ==> (#[trigger] rows[k]).title != t
            &&& forall|k: int| 0 <= k < d.list_items.len() && d.list_items[k].title != t
                ==> rows.contains(#[trigger] d.list_items[k])
        }),
{
    lemma_remove_titled_filters(d.list_items, t);
    d.list_items.filter_lemma(|it: ListItemV| it.title != t);
}

/// Icon values that name nothing, a symbol, or an image file: blank text
/// hides the icon, `SF=` text is a symbol, and text whose lower case ends
/// in `.png` that is not a URL is a file to read, under its trimmed text.
pub proof fn law_icon_value_kinds(source: Seq<char>)
    ensures
        trim(source).len() == 0 ==> spec_plan(source) == (IconPlanV::Ready {
            render: IconRenderV::Hidden,
            warning: None,
        }),
        trim(source).len() > 0 && starts_with(trim(source), "SF="@) ==> (spec_classify(source) is Sf),
        trim(source).len() > 0 && !starts_with(trim(source), "SF="@) && !starts_with(
            trim(source),
            "http://"@,
        ) && !starts_with(trim(source), "https://"@) && ends_with(lower_text(trim(source)), ".png"@)
            ==> spec_plan(source) == IconPlanV::ReadFile(trim(source)),
{
    reveal_strlit(".png");
    reveal_strlit("none");
    reveal_strlit("default");
    reveal_strlit("warning");
    reveal_strlit("caution");
    reveal_strlit("info");
    reveal_strlit(".app");
    reveal_strlit(".exe");
    reveal_strlit(".lnk");
    let l = lower_text(trim(source));
    if ends_with(l, ".png"@) {
        assert(l[l.len() - 4] == '.') by {
            assert(l.subrange(l.len() - 4, l.len() as int)[0] == l[l.len() - 4]);
        }
        assert(l[l.len() - 1] == 'g') by {
            assert(l.subrange(l.len() - 4, l.len() as int)[3] == l[l.len() - 1]);
        }
        assert(l != "none"@) by {
            assert("none"@[0] == 'n');
        }
        assert(l != "info"@) by {
            assert("info"@[0] == 'i');
        }
        assert(l != "default"@) by {
            assert("default"@[3] == 'a');
        }
        assert(l != "warning"@) by {
            assert("warning"@[3] == 'n');
        }
        assert(l != "caution"@) by {
            assert("caution"@[3] == 't');
        }
        assert(!ends_with(l, ".app"@)) by {
            if ends_with(l, ".app"@) {
                assert(l.subrange(l.len() - 4, l.len() as int)[3] == 'p');
            }
        }
        assert(!ends_with(l, ".exe"@)) by {
            if ends_with(l, ".exe"@) {
                assert(l.subrange(l.len() - 4, l.len() as int)[3] == 'e');
            }
        }
        assert(!ends_with(l, ".lnk"@)) by {
            if ends_with(l, ".lnk"@) {
                assert(l.subrange(l.len() - 4, l.len() as int)[3] == 'k');
            }
        }
    }
}

/// A pattern of one token matches a text exactly when the text's length is
/// within the token's bounds and every character of it is in the token's
/// class.
pub proof fn law_one_token_matches_runs(tok: TokenV, text: Seq<char>)
    ensures
        matches_from(seq![tok], 0, text, 0) <==> (tok.min <= text.len() <= tok.max && forall|q: int|
            0 <= q < text.len() ==> class_matches_spec(tok.class, #[trigger] text[q])),
{
    let toks = seq![tok];
    if tok.min <= text.len() <= tok.max && forall|q: int|
        0 <= q < text.len() ==> class_matches_spec(tok.class, #[trigger] text[q]) {
        let ends = seq![text.len() as int];
        assert(ends.last() == text.len());
        assert(is_split(toks, 0, text, 0, ends));
    }
    if matches_from(toks, 0, text, 0) {
        let ends = choose|ends: Seq<int>| is_split(toks, 0, text, 0, ends);
        assert(ends.len() == 1);
        assert(ends.last() == ends[0]);
        assert(toks[0] == tok);
        assert(crate::regex_lite::run_ok(toks[0], text, 0, ends[0]));
    }
}

} // verus!
