//! Degrade-don't-break: every option in the table parses, but options that
//! aren't implemented yet (or can never work on this platform) warn on
//! stderr and no-op. A script with `--blurscreen` must still show its
//! dialog.

use crate::options::{by_long, spec_by_long, Platforms};
use crate::parser::{distinct, is_option_name, lemma_distinct_from, ParsedArgs};
use crate::text::str_eq;
use vstd::prelude::*;
use vstd::string::*;

verus! {

broadcast use vstd::string::group_string_axioms;

#[derive(Debug, Clone, Copy, PartialEq, Eq, Structural)]
pub enum Platform {
    MacOs,
    Windows,
    Linux,
}

#[derive(Debug, Clone, Copy, PartialEq, Eq, Structural)]
pub enum DegradeReason {
    /// Feature hasn't been built yet (tier not reached).
    NotImplemented,
    /// Option can never apply on this platform (e.g. `--loginwindow` on
    /// Windows).
    PlatformUnavailable,
}

#[derive(Debug, Clone, Copy, PartialEq, Eq)]
pub struct DegradeWarning {
    pub option: &'static str,
    pub reason: DegradeReason,
}

/// The words a warning uses for its reason.
pub open spec fn reason_text(r: DegradeReason) -> Seq<char> {
    match r {
        DegradeReason::NotImplemented => "not yet implemented"@,
        DegradeReason::PlatformUnavailable => "not available on this platform"@,
    }
}

impl DegradeWarning {
    /// The stderr line: `WARNING: --<option> <reason> — ignoring`.
    pub fn to_string(&self) -> (r: String)
        ensures
            r@ == "WARNING: --"@ + self.option@ + " "@ + reason_text(self.reason) + " — ignoring"@,
    {
        let mut s = String::from_str("WARNING: --");
        s.append(self.option);
        s.append(" ");
        match self.reason {
            DegradeReason::NotImplemented => s.append("not yet implemented"),
            DegradeReason::PlatformUnavailable => s.append("not available on this platform"),
        }
        s.append(" — ignoring");
        s
    }
}

/// The warning, if any, for one present option.
pub open spec fn warning_for(name: Seq<char>, implemented: Seq<Seq<char>>, platform: Platform) -> Option<
    DegradeReason,
> {
    if spec_by_long(name).unwrap().platforms == Platforms::MacOnly && platform != Platform::MacOs {
        Some(DegradeReason::PlatformUnavailable)
    } else if !implemented.contains(name) {
        Some(DegradeReason::NotImplemented)
    } else {
        None
    }
}

/// The warnings for `names`, in order.
pub open spec fn spec_warnings(
    names: Seq<Seq<char>>,
    implemented: Seq<Seq<char>>,
    platform: Platform,
) -> Seq<(Seq<char>, DegradeReason)>
    decreases names.len(),
{
    if names.len() == 0 {
        Seq::empty()
    } else {
        let rest = spec_warnings(names.drop_last(), implemented, platform);
        match warning_for(names.last(), implemented, platform) {
            Some(r) => rest.push((names.last(), r)),
            None => rest,
        }
    }
}

/// Whether `name` is in the list.
fn listed(list: &[&str], name: &str) -> (r: bool)
    ensures
        r == list@.map_values(|s: &str| s@).contains(name@),
{
    let mut i: usize = 0;
    while i < list.len()
        invariant
            i <= list.len(),
            forall|k: int| 0 <= k < i ==> list@[k]@ != name@,
        decreases list.len() - i,
    {
        if str_eq(list[i], name) {
            assert(list@.map_values(|s: &str| s@)[i as int] == name@);
            return true;
        }
        i = i + 1;
    }
    let ghost lv = list@.map_values(|s: &str| s@);
    assert forall|k: int| 0 <= k < lv.len() implies #[trigger] lv[k] != name@ by {
        assert(lv[k] == list@[k]@);
    }
    false
}

/// Compute warnings for present options that will be ignored. The caller
/// owns `implemented` (the options actually wired up) and prints the
/// warnings to stderr.
pub fn degrade_warnings(args: &ParsedArgs, implemented: &[&str], platform: Platform) -> (r: Vec<
    DegradeWarning,
>)
    requires
        args.model().wf(),
    ensures
        r@.map_values(|w: DegradeWarning| (w.option@, w.reason)) == spec_warnings(
            args.model().present_options(),
            implemented@.map_values(|s: &str| s@),
            platform,
        ),
{
    let ghost imp = implemented@.map_values(|s: &str| s@);
    let names = args.present_options();
    let ghost nv = args.model().present_options();
    proof {
        let m = args.model();
        let pn = m.pairs.map_values(|p: (Seq<char>, Seq<char>)| p.0);
        lemma_distinct_from(pn);
        assert forall|k: int| 0 <= k < nv.len() implies is_option_name(#[trigger] nv[k]) by {
            if k < m.flags.len() {
                assert(nv[k] == m.flags[k]);
            } else {
                assert(nv[k] == distinct(pn)[k - m.flags.len()]);
                let x = distinct(pn)[k - m.flags.len()];
                let j = choose|j: int| 0 <= j < pn.len() && pn[j] == x;
                assert(pn[j] == m.pairs[j].0);
            }
        }
    }
    let mut warnings: Vec<DegradeWarning> = Vec::new();
    let mut i: usize = 0;
    while i < names.len()
        invariant
            i <= names.len(),
            names@.map_values(|s: &'static str| s@) == nv,
            forall|k: int| 0 <= k < nv.len() ==> is_option_name(#[trigger] nv[k]),
            imp == implemented@.map_values(|s: &str| s@),
            warnings@.map_values(|w: DegradeWarning| (w.option@, w.reason)) == spec_warnings(
                nv.take(i as int),
                imp,
                platform,
            ),
        decreases names.len() - i,
    {
        let name = names[i];
        assert(nv[i as int] == name@);
        assert(nv.take(i + 1).drop_last() =~= nv.take(i as int));
        assert(nv.take(i + 1).last() == name@);
        proof {
            assert(is_option_name(nv[i as int]));
            let j = choose|j: int|
                0 <= j < crate::options::OPTION_COUNT && (#[trigger] crate::options::table(
                    j,
                )).long@ == name@;
            crate::options::lemma_long_exists(name@, j);
        }
        let def = by_long(name).unwrap();
        let ghost before = warnings@;
        if def.platforms == Platforms::MacOnly && platform != Platform::MacOs {
            warnings.push(DegradeWarning { option: name, reason: DegradeReason::PlatformUnavailable });
            assert(warnings@.map_values(|w: DegradeWarning| (w.option@, w.reason)) =~= before.map_values(
                |w: DegradeWarning| (w.option@, w.reason),
            ).push((name@, DegradeReason::PlatformUnavailable)));
        } else if !listed(implemented, name) {
            warnings.push(DegradeWarning { option: name, reason: DegradeReason::NotImplemented });
            assert(warnings@.map_values(|w: DegradeWarning| (w.option@, w.reason)) =~= before.map_values(
                |w: DegradeWarning| (w.option@, w.reason),
            ).push((name@, DegradeReason::NotImplemented)));
        }
        i = i + 1;
    }
    assert(nv.take(names.len() as int) =~= nv);
    warnings
}

/// How many options are wired up end to end.
pub const IMPLEMENTED_COUNT: usize = 54;

/// The options wired up end to end, by position. Anything parsed but absent
/// here warns and no-ops (degrade-don't-break). Grows as capabilities land.
pub open spec fn implemented_name(i: usize) -> &'static str {
    if i < 18 {
        implemented_part0(i)
    } else if i < 36 {
        implemented_part1(i)
    } else {
        implemented_part2(i)
    }
}

/// Implemented options 0 to 17.
pub open spec fn implemented_part0(i: usize) -> &'static str {
    match i {
        0 => "version",
        1 => "help",
        2 => "verbose",
        3 => "json",
        4 => "jsonfile",
        5 => "jsonstring",
        6 => "title",
        7 => "subtitle",
        8 => "message",
        9 => "messagealignment",
        10 => "messageposition",
        11 => "button1text",
        12 => "button1action",
        13 => "button1disabled",
        14 => "button2",
        15 => "button2text",
        16 => "button2action",
        17 => "button2disabled",
        _ => "",
    }
}

fn implemented_at0(i: usize) -> (s: &'static str)
    requires
        0 <= i < 18,
    ensures
        s == implemented_part0(i),
{
    match i {
        0 => "version",
        1 => "help",
        2 => "verbose",
        3 => "json",
        4 => "jsonfile",
        5 => "jsonstring",
        6 => "title",
        7 => "subtitle",
        8 => "message",
        9 => "messagealignment",
        10 => "messageposition",
        11 => "button1text",
        12 => "button1action",
        13 => "button1disabled",
        14 => "button2",
        15 => "button2text",
        16 => "button2action",
        17 => "button2disabled",
        _ => "",
    }
}

/// Implemented options 18 to 35.
pub open spec fn implemented_part1(i: usize) -> &'static str {
    match i {
        18 => "infobutton",
        19 => "infobuttontext",
        20 => "infobuttonaction",
        21 => "quitoninfo",
        22 => "timer",
        23 => "hidetimerbar",
        24 => "width",
        25 => "height",
        26 => "ontop",
        27 => "moveable",
        28 => "resizable",
        29 => "appearance",
        30 => "hideicon",
        31 => "small",
        32 => "big",
        33 => "mini",
        34 => "style",
        35 => "titlefont",
        _ => "",
    }
}

fn implemented_at1(i: usize) -> (s: &'static str)
    requires
        18 <= i < 36,
    ensures
        s == implemented_part1(i),
{
    match i {
        18 => "infobutton",
        19 => "infobuttontext",
        20 => "infobuttonaction",
        21 => "quitoninfo",
        22 => "timer",
        23 => "hidetimerbar",
        24 => "width",
        25 => "height",
        26 => "ontop",
        27 => "moveable",
        28 => "resizable",
        29 => "appearance",
        30 => "hideicon",
        31 => "small",
        32 => "big",
        33 => "mini",
        34 => "style",
        35 => "titlefont",
        _ => "",
    }
}

/// Implemented options 36 to 53.
pub open spec fn implemented_part2(i: usize) -> &'static str {
    match i {
        36 => "messagefont",
        37 => "quitkey",
        38 => "commandfile",
        39 => "progress",
        40 => "progresstext",
        41 => "infotext",
        42 => "listitem",
        43 => "liststyle",
        44 => "enablelistselect",
        45 => "textfield",
        46 => "textfieldlivevalidation",
        47 => "checkbox",
        48 => "checkboxstyle",
        49 => "selecttitle",
        50 => "selectvalues",
        51 => "selectdefault",
        52 => "selectstyle",
        53 => "alwaysreturninput",
        _ => "",
    }
}

fn implemented_at2(i: usize) -> (s: &'static str)
    requires
        36 <= i < 54,
    ensures
        s == implemented_part2(i),
{
    match i {
        36 => "messagefont",
        37 => "quitkey",
        38 => "commandfile",
        39 => "progress",
        40 => "progresstext",
        41 => "infotext",
        42 => "listitem",
        43 => "liststyle",
        44 => "enablelistselect",
        45 => "textfield",
        46 => "textfieldlivevalidation",
        47 => "checkbox",
        48 => "checkboxstyle",
        49 => "selecttitle",
        50 => "selectvalues",
        51 => "selectdefault",
        52 => "selectstyle",
        53 => "alwaysreturninput",
        _ => "",
    }
}

/// The options wired up end to end, in order.
pub fn implemented() -> (v: Vec<&'static str>)
    ensures
        v@.len() == IMPLEMENTED_COUNT,
        forall|i: int| 0 <= i < IMPLEMENTED_COUNT ==> v@[i] == implemented_name(i as usize),
{
    let mut v: Vec<&'static str> = Vec::new();
    let mut i: usize = 0;
    while i < IMPLEMENTED_COUNT
        invariant
            i <= IMPLEMENTED_COUNT,
            v@.len() == i,
            forall|k: int| 0 <= k < i ==> v@[k] == implemented_name(k as usize),
        decreases IMPLEMENTED_COUNT - i,
    {
        let name = if i < 18 {
            implemented_at0(i)
        } else if i < 36 {
            implemented_at1(i)
        } else {
            implemented_at2(i)
        };
        v.push(name);
        i = i + 1;
    }
    v
}

} // verus!
