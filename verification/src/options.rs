//! The swiftDialog option table — the single source of truth for the CLI
//! surface (132 options, in swiftDialog declaration order). Parsing accepts
//! everything in this table; whether an option is acted on is decided by the
//! implemented set at run time (degrade, don't break).

use crate::text::str_eq;
use vstd::prelude::*;

verus! {

/// How an option consumes arguments.
#[derive(Debug, Clone, Copy, PartialEq, Eq, Structural)]
pub enum Kind {
    /// Boolean flag; takes no value.
    Flag,
    /// Takes one value argument.
    WithValue,
}

/// Roadmap tier. Planning metadata, not run-time gating.
#[derive(Debug, Clone, Copy, PartialEq, Eq, Structural)]
pub enum Tier {
    /// v1 scope: core content, icons, buttons, inputs, list/progress, IPC,
    /// basic window behavior.
    T1,
    /// v1.x scope: banners, media, help sheet, blur, advanced window.
    T2,
    /// macOS-only system integration; accepted and no-op'd elsewhere.
    T3,
    /// Stubbed or dropped (builder, easter eggs, jamfHelper mode, Inspect).
    T4,
}

/// Platforms an option can ever be implemented on.
#[derive(Debug, Clone, Copy, PartialEq, Eq, Structural)]
pub enum Platforms {
    All,
    MacOnly,
}

#[derive(Debug, Clone, Copy)]
pub struct OptionDef {
    pub long: &'static str,
    pub short: Option<&'static str>,
    pub kind: Kind,
    /// Compat default as a string, where swiftDialog defines one.
    /// `default-title`/`default-message` are swiftDialog localization keys;
    /// the dialog state shows `default-title` as "An Important Message".
    pub default: Option<&'static str>,
    pub tier: Tier,
    pub platforms: Platforms,
    /// Hidden from help, still parsed.
    pub hidden: bool,
    /// May appear multiple times on one command line.
    pub repeatable: bool,
    /// Deprecated alias: parse, then treat as this canonical option.
    pub alias_of: Option<&'static str>,
}

use Kind::{Flag, WithValue};
use Tier::{T1, T2, T3, T4};

/// A plain option of the given kind and tier.
#[verifier::allow_in_spec]
pub fn opt(long: &'static str, kind: Kind, tier: Tier) -> OptionDef
    returns
        (OptionDef {
            long,
            short: None,
            kind,
            default: None,
            tier,
            platforms: Platforms::All,
            hidden: false,
            repeatable: false,
            alias_of: None,
        }),
{
    OptionDef {
        long,
        short: None,
        kind,
        default: None,
        tier,
        platforms: Platforms::All,
        hidden: false,
        repeatable: false,
        alias_of: None,
    }
}

/// With a short alias.
#[verifier::allow_in_spec]
pub fn short(o: OptionDef, s: &'static str) -> OptionDef
    returns
        (OptionDef { short: Some(s), ..o }),
{
    OptionDef { short: Some(s), ..o }
}

/// With a compat default.
#[verifier::allow_in_spec]
pub fn default(o: OptionDef, d: &'static str) -> OptionDef
    returns
        (OptionDef { default: Some(d), ..o }),
{
    OptionDef { default: Some(d), ..o }
}

/// Available on macOS only.
#[verifier::allow_in_spec]
pub fn mac_only(o: OptionDef) -> OptionDef
    returns
        (OptionDef { platforms: Platforms::MacOnly, ..o }),
{
    OptionDef { platforms: Platforms::MacOnly, ..o }
}

/// Hidden from help.
#[verifier::allow_in_spec]
pub fn hidden(o: OptionDef) -> OptionDef
    returns
        (OptionDef { hidden: true, ..o }),
{
    OptionDef { hidden: true, ..o }
}

/// May repeat.
#[verifier::allow_in_spec]
pub fn repeatable(o: OptionDef) -> OptionDef
    returns
        (OptionDef { repeatable: true, ..o }),
{
    OptionDef { repeatable: true, ..o }
}

/// Deprecated alias of `canonical`.
#[verifier::allow_in_spec]
pub fn alias_of(o: OptionDef, canonical: &'static str) -> OptionDef
    returns
        (OptionDef { alias_of: Some(canonical), ..o }),
{
    OptionDef { alias_of: Some(canonical), ..o }
}

/// Number of options in the table.
pub const OPTION_COUNT: usize = 132;

/// The table, entry by entry, in `CommandLineArguments.swift` declaration order.
pub open spec fn table(i: int) -> OptionDef {
    table_at(i as usize)
}

/// The table, indexed by `usize`.
pub open spec fn table_at(i: usize) -> OptionDef {
    if i < 22 {
        table_part0(i)
    } else if i < 44 {
        table_part1(i)
    } else if i < 66 {
        table_part2(i)
    } else if i < 88 {
        table_part3(i)
    } else if i < 110 {
        table_part4(i)
    } else {
        table_part5(i)
    }
}

/// Table entries 0 to 21.
pub open spec fn table_part0(i: usize) -> OptionDef {
    match i {
        0 => short(default(opt("title", WithValue, T1), "default-title"), "t"),
        1 => opt("subtitle", WithValue, T1),
        2 => short(default(opt("message", WithValue, T1), "default-message"), "m"),
        3 => opt("style", WithValue, T1),
        4 => default(opt("messagealignment", WithValue, T1), "left"),
        5 => default(opt("helpalignment", WithValue, T2), "left"),
        6 => alias_of(default(opt("alignment", WithValue, T1), "left"), "messagealignment"),
        7 => opt("messageposition", WithValue, T1),
        8 => opt("helpmessage", WithValue, T2),
        9 => opt("helpimage", WithValue, T2),
        10 => default(opt("helpsheetbuttontext", WithValue, T2), "OK"),
        11 => short(default(opt("icon", WithValue, T1), "default"), "i"),
        12 => default(opt("iconsize", WithValue, T1), "150"),
        13 => default(opt("iconalpha", WithValue, T1), "1.0"),
        14 => default(opt("iconalttext", WithValue, T1), "Dialog Icon"),
        15 => short(opt("overlayicon", WithValue, T1), "y"),
        16 => short(opt("bannerimage", WithValue, T2), "n"),
        17 => default(opt("bannertitle", WithValue, T2), "default-title"),
        18 => default(opt("bannertext", WithValue, T2), "default-title"),
        19 => opt("bannerheight", WithValue, T2),
        20 => default(opt("button1text", WithValue, T1), "OK"),
        21 => opt("button1action", WithValue, T1),
        _ => opt("", Kind::Flag, Tier::T4),
    }
}

/// Table entries 22 to 43.
pub open spec fn table_part1(i: usize) -> OptionDef {
    match i {
        22 => hidden(opt("button1shellaction", WithValue, T4)),
        23 => opt("button1symbol", WithValue, T1),
        24 => default(opt("button2text", WithValue, T1), "Cancel"),
        25 => opt("button2action", WithValue, T1),
        26 => opt("button2symbol", WithValue, T1),
        27 => default(opt("infobuttontext", WithValue, T1), "More Information"),
        28 => opt("infobuttonaction", WithValue, T1),
        29 => opt("infobuttonsymbol", WithValue, T1),
        30 => opt("buttonstyle", WithValue, T1),
        31 => default(opt("buttonsize", WithValue, T1), "regular"),
        32 => opt("buttontextsize", WithValue, T1),
        33 => repeatable(opt("selecttitle", WithValue, T1)),
        34 => repeatable(opt("selectvalues", WithValue, T1)),
        35 => repeatable(opt("selectdefault", WithValue, T1)),
        36 => repeatable(opt("selectstyle", WithValue, T1)),
        37 => opt("titlefont", WithValue, T1),
        38 => opt("messagefont", WithValue, T1),
        39 => repeatable(opt("textfield", WithValue, T1)),
        40 => opt("textfieldlivevalidation", Flag, T1),
        41 => repeatable(opt("checkbox", WithValue, T1)),
        42 => opt("checkboxstyle", WithValue, T1),
        43 => default(opt("timer", WithValue, T1), "10"),
        _ => opt("", Kind::Flag, Tier::T4),
    }
}

/// Table entries 44 to 65.
pub open spec fn table_part2(i: usize) -> OptionDef {
    match i {
        44 => opt("progress", WithValue, T1),
        45 => default(opt("progresstext", WithValue, T1), " "),
        46 => default(opt("progresstextalignment", WithValue, T1), " "),
        47 => short(opt("image", WithValue, T2), "g"),
        48 => opt("imagecaption", WithValue, T2),
        49 => default(opt("width", WithValue, T1), "820"),
        50 => default(opt("height", WithValue, T1), "380"),
        51 => short(opt("background", WithValue, T2), "bg"),
        52 => short(opt("bgalpha", WithValue, T2), "ba"),
        53 => short(opt("bgposition", WithValue, T2), "bp"),
        54 => short(opt("bgfill", WithValue, T2), "bf"),
        55 => short(opt("bgscale", WithValue, T2), "bs"),
        56 => opt("position", WithValue, T1),
        57 => default(opt("positionoffset", WithValue, T1), "16"),
        58 => opt("video", WithValue, T2),
        59 => opt("videocaption", WithValue, T2),
        60 => opt("debug", WithValue, T1),
        61 => opt("jsonfile", WithValue, T1),
        62 => opt("jsonstring", WithValue, T1),
        63 => opt("commandfile", WithValue, T1),
        64 => repeatable(opt("listitem", WithValue, T1)),
        65 => opt("liststyle", WithValue, T1),
        _ => opt("", Kind::Flag, Tier::T4),
    }
}

/// Table entries 66 to 87.
pub open spec fn table_part3(i: usize) -> OptionDef {
    match i {
        66 => opt("enablelistselect", Flag, T1),
        67 => opt("infotext", WithValue, T1),
        68 => opt("infobox", WithValue, T1),
        69 => default(opt("quitkey", WithValue, T1), "q"),
        70 => opt("webcontent", WithValue, T2),
        71 => short(opt("key", WithValue, T1), "k"),
        72 => opt("checksum", WithValue, T1),
        73 => opt("displaylog", WithValue, T2),
        74 => default(opt("loghistory", WithValue, T2), "100"),
        75 => opt("vieworder", WithValue, T2),
        76 => opt("appearance", WithValue, T1),
        77 => mac_only(opt("seticon", WithValue, T3)),
        78 => short(opt("identifier", WithValue, T2), "id"),
        79 => hidden(default(opt("pid", WithValue, T2), "0")),
        80 => mac_only(opt("sound", WithValue, T3)),
        81 => mac_only(opt("dockicon", WithValue, T3)),
        82 => mac_only(opt("dockiconbadge", WithValue, T3)),
        83 => opt("onadvance", WithValue, T2),
        84 => opt("button1disabled", Flag, T1),
        85 => opt("button2disabled", Flag, T1),
        86 => short(opt("button2", Flag, T1), "2"),
        87 => short(opt("infobutton", Flag, T1), "3"),
        _ => opt("", Kind::Flag, Tier::T4),
    }
}

/// Table entries 88 to 109.
pub open spec fn table_part4(i: usize) -> OptionDef {
    match i {
        88 => short(opt("version", Flag, T1), "v"),
        89 => short(opt("hideicon", Flag, T1), "h"),
        90 => opt("centreicon", Flag, T1),
        91 => hidden(alias_of(opt("centericon", Flag, T1), "centreicon")),
        92 => opt("help", Flag, T1),
        93 => opt("demo", Flag, T4),
        94 => hidden(short(opt("coffee", Flag, T4), "☕️")),
        95 => short(opt("licence", Flag, T4), "l"),
        96 => opt("warningicon", Flag, T1),
        97 => opt("infoicon", Flag, T1),
        98 => opt("cautionicon", Flag, T1),
        99 => opt("hidetimerbar", Flag, T1),
        100 => opt("hidetimer", Flag, T1),
        101 => opt("autoplay", Flag, T2),
        102 => opt("blurscreen", Flag, T2),
        103 => mac_only(opt("notification", Flag, T3)),
        104 => short(opt("verbose", Flag, T1), "vvv"),
        105 => mac_only(opt("showdockicon", Flag, T3)),
        106 => opt("builder", Flag, T4),
        107 => short(opt("moveable", Flag, T1), "o"),
        108 => short(opt("ontop", Flag, T1), "p"),
        109 => short(opt("small", Flag, T1), "s"),
        _ => opt("", Kind::Flag, Tier::T4),
    }
}

/// Table entries 110 to 131.
pub open spec fn table_part5(i: usize) -> OptionDef {
    match i {
        110 => short(opt("big", Flag, T1), "b"),
        111 => short(opt("fullscreen", Flag, T2), "f"),
        112 => opt("quitoninfo", Flag, T1),
        113 => opt("listfonts", Flag, T4),
        114 => short(opt("json", Flag, T1), "j"),
        115 => mac_only(short(opt("ignorednd", Flag, T3), "d")),
        116 => short(opt("jh", Flag, T4), "jh"),
        117 => opt("mini", Flag, T1),
        118 => opt("eula", Flag, T4),
        119 => opt("presentation", Flag, T2),
        120 => opt("windowbuttons", Flag, T1),
        121 => opt("resizable", Flag, T1),
        122 => opt("showonallscreens", Flag, T2),
        123 => mac_only(opt("enablenotificationsounds", Flag, T3)),
        124 => mac_only(opt("loginwindow", Flag, T3)),
        125 => opt("hidedefaultkeyboardaction", Flag, T1),
        126 => opt("alwaysreturninput", Flag, T1),
        127 => mac_only(opt("remove", Flag, T3)),
        128 => opt("showsoundcontrols", Flag, T2),
        129 => opt("hideotherapps", Flag, T2),
        130 => opt("inspect-mode", Flag, T4),
        131 => opt("inspect-config", WithValue, T4),
        _ => opt("", Kind::Flag, Tier::T4),
    }
}

fn option_part0(i: usize) -> (o: OptionDef)
    requires
        0 <= i < 22,
    ensures
        o == table_part0(i),
{
    match i {
        0 => short(default(opt("title", WithValue, T1), "default-title"), "t"),
        1 => opt("subtitle", WithValue, T1),
        2 => short(default(opt("message", WithValue, T1), "default-message"), "m"),
        3 => opt("style", WithValue, T1),
        4 => default(opt("messagealignment", WithValue, T1), "left"),
        5 => default(opt("helpalignment", WithValue, T2), "left"),
        6 => alias_of(default(opt("alignment", WithValue, T1), "left"), "messagealignment"),
        7 => opt("messageposition", WithValue, T1),
        8 => opt("helpmessage", WithValue, T2),
        9 => opt("helpimage", WithValue, T2),
        10 => default(opt("helpsheetbuttontext", WithValue, T2), "OK"),
        11 => short(default(opt("icon", WithValue, T1), "default"), "i"),
        12 => default(opt("iconsize", WithValue, T1), "150"),
        13 => default(opt("iconalpha", WithValue, T1), "1.0"),
        14 => default(opt("iconalttext", WithValue, T1), "Dialog Icon"),
        15 => short(opt("overlayicon", WithValue, T1), "y"),
        16 => short(opt("bannerimage", WithValue, T2), "n"),
        17 => default(opt("bannertitle", WithValue, T2), "default-title"),
        18 => default(opt("bannertext", WithValue, T2), "default-title"),
        19 => opt("bannerheight", WithValue, T2),
        20 => default(opt("button1text", WithValue, T1), "OK"),
        21 => opt("button1action", WithValue, T1),
        _ => opt("", Kind::Flag, Tier::T4),
    }
}

fn option_part1(i: usize) -> (o: OptionDef)
    requires
        22 <= i < 44,
    ensures
        o == table_part1(i),
{
    match i {
        22 => hidden(opt("button1shellaction", WithValue, T4)),
        23 => opt("button1symbol", WithValue, T1),
        24 => default(opt("button2text", WithValue, T1), "Cancel"),
        25 => opt("button2action", WithValue, T1),
        26 => opt("button2symbol", WithValue, T1),
        27 => default(opt("infobuttontext", WithValue, T1), "More Information"),
        28 => opt("infobuttonaction", WithValue, T1),
        29 => opt("infobuttonsymbol", WithValue, T1),
        30 => opt("buttonstyle", WithValue, T1),
        31 => default(opt("buttonsize", WithValue, T1), "regular"),
        32 => opt("buttontextsize", WithValue, T1),
        33 => repeatable(opt("selecttitle", WithValue, T1)),
        34 => repeatable(opt("selectvalues", WithValue, T1)),
        35 => repeatable(opt("selectdefault", WithValue, T1)),
        36 => repeatable(opt("selectstyle", WithValue, T1)),
        37 => opt("titlefont", WithValue, T1),
        38 => opt("messagefont", WithValue, T1),
        39 => repeatable(opt("textfield", WithValue, T1)),
        40 => opt("textfieldlivevalidation", Flag, T1),
        41 => repeatable(opt("checkbox", WithValue, T1)),
        42 => opt("checkboxstyle", WithValue, T1),
        43 => default(opt("timer", WithValue, T1), "10"),
        _ => opt("", Kind::Flag, Tier::T4),
    }
}

fn option_part2(i: usize) -> (o: OptionDef)
    requires
        44 <= i < 66,
    ensures
        o == table_part2(i),
{
    match i {
        44 => opt("progress", WithValue, T1),
        45 => default(opt("progresstext", WithValue, T1), " "),
        46 => default(opt("progresstextalignment", WithValue, T1), " "),
        47 => short(opt("image", WithValue, T2), "g"),
        48 => opt("imagecaption", WithValue, T2),
        49 => default(opt("width", WithValue, T1), "820"),
        50 => default(opt("height", WithValue, T1), "380"),
        51 => short(opt("background", WithValue, T2), "bg"),
        52 => short(opt("bgalpha", WithValue, T2), "ba"),
        53 => short(opt("bgposition", WithValue, T2), "bp"),
        54 => short(opt("bgfill", WithValue, T2), "bf"),
        55 => short(opt("bgscale", WithValue, T2), "bs"),
        56 => opt("position", WithValue, T1),
        57 => default(opt("positionoffset", WithValue, T1), "16"),
        58 => opt("video", WithValue, T2),
        59 => opt("videocaption", WithValue, T2),
        60 => opt("debug", WithValue, T1),
        61 => opt("jsonfile", WithValue, T1),
        62 => opt("jsonstring", WithValue, T1),
        63 => opt("commandfile", WithValue, T1),
        64 => repeatable(opt("listitem", WithValue, T1)),
        65 => opt("liststyle", WithValue, T1),
        _ => opt("", Kind::Flag, Tier::T4),
    }
}

fn option_part3(i: usize) -> (o: OptionDef)
    requires
        66 <= i < 88,
    ensures
        o == table_part3(i),
{
    match i {
        66 => opt("enablelistselect", Flag, T1),
        67 => opt("infotext", WithValue, T1),
        68 => opt("infobox", WithValue, T1),
        69 => default(opt("quitkey", WithValue, T1), "q"),
        70 => opt("webcontent", WithValue, T2),
        71 => short(opt("key", WithValue, T1), "k"),
        72 => opt("checksum", WithValue, T1),
        73 => opt("displaylog", WithValue, T2),
        74 => default(opt("loghistory", WithValue, T2), "100"),
        75 => opt("vieworder", WithValue, T2),
        76 => opt("appearance", WithValue, T1),
        77 => mac_only(opt("seticon", WithValue, T3)),
        78 => short(opt("identifier", WithValue, T2), "id"),
        79 => hidden(default(opt("pid", WithValue, T2), "0")),
        80 => mac_only(opt("sound", WithValue, T3)),
        81 => mac_only(opt("dockicon", WithValue, T3)),
        82 => mac_only(opt("dockiconbadge", WithValue, T3)),
        83 => opt("onadvance", WithValue, T2),
        84 => opt("button1disabled", Flag, T1),
        85 => opt("button2disabled", Flag, T1),
        86 => short(opt("button2", Flag, T1), "2"),
        87 => short(opt("infobutton", Flag, T1), "3"),
        _ => opt("", Kind::Flag, Tier::T4),
    }
}

fn option_part4(i: usize) -> (o: OptionDef)
    requires
        88 <= i < 110,
    ensures
        o == table_part4(i),
{
    match i {
        88 => short(opt("version", Flag, T1), "v"),
        89 => short(opt("hideicon", Flag, T1), "h"),
        90 => opt("centreicon", Flag, T1),
        91 => hidden(alias_of(opt("centericon", Flag, T1), "centreicon")),
        92 => opt("help", Flag, T1),
        93 => opt("demo", Flag, T4),
        94 => hidden(short(opt("coffee", Flag, T4), "☕️")),
        95 => short(opt("licence", Flag, T4), "l"),
        96 => opt("warningicon", Flag, T1),
        97 => opt("infoicon", Flag, T1),
        98 => opt("cautionicon", Flag, T1),
        99 => opt("hidetimerbar", Flag, T1),
        100 => opt("hidetimer", Flag, T1),
        101 => opt("autoplay", Flag, T2),
        102 => opt("blurscreen", Flag, T2),
        103 => mac_only(opt("notification", Flag, T3)),
        104 => short(opt("verbose", Flag, T1), "vvv"),
        105 => mac_only(opt("showdockicon", Flag, T3)),
        106 => opt("builder", Flag, T4),
        107 => short(opt("moveable", Flag, T1), "o"),
        108 => short(opt("ontop", Flag, T1), "p"),
        109 => short(opt("small", Flag, T1), "s"),
        _ => opt("", Kind::Flag, Tier::T4),
    }
}

fn option_part5(i: usize) -> (o: OptionDef)
    requires
        110 <= i < 132,
    ensures
        o == table_part5(i),
{
    match i {
        110 => short(opt("big", Flag, T1), "b"),
        111 => short(opt("fullscreen", Flag, T2), "f"),
        112 => opt("quitoninfo", Flag, T1),
        113 => opt("listfonts", Flag, T4),
        114 => short(opt("json", Flag, T1), "j"),
        115 => mac_only(short(opt("ignorednd", Flag, T3), "d")),
        116 => short(opt("jh", Flag, T4), "jh"),
        117 => opt("mini", Flag, T1),
        118 => opt("eula", Flag, T4),
        119 => opt("presentation", Flag, T2),
        120 => opt("windowbuttons", Flag, T1),
        121 => opt("resizable", Flag, T1),
        122 => opt("showonallscreens", Flag, T2),
        123 => mac_only(opt("enablenotificationsounds", Flag, T3)),
        124 => mac_only(opt("loginwindow", Flag, T3)),
        125 => opt("hidedefaultkeyboardaction", Flag, T1),
        126 => opt("alwaysreturninput", Flag, T1),
        127 => mac_only(opt("remove", Flag, T3)),
        128 => opt("showsoundcontrols", Flag, T2),
        129 => opt("hideotherapps", Flag, T2),
        130 => opt("inspect-mode", Flag, T4),
        131 => opt("inspect-config", WithValue, T4),
        _ => opt("", Kind::Flag, Tier::T4),
    }
}

/// Entry `i` of the table.
pub fn option_at(i: usize) -> (o: OptionDef)
    requires
        i < OPTION_COUNT,
    ensures
        o == table(i as int),
{
    if i < 22 {
        option_part0(i)
    } else if i < 44 {
        option_part1(i)
    } else if i < 66 {
        option_part2(i)
    } else if i < 88 {
        option_part3(i)
    } else if i < 110 {
        option_part4(i)
    } else {
        option_part5(i)
    }
}

/// All options, in table order.
pub fn options() -> (v: Vec<OptionDef>)
    ensures
        v@.len() == OPTION_COUNT,
        forall|i: int| 0 <= i < OPTION_COUNT ==> v@[i] == table(i),
{
    let mut v: Vec<OptionDef> = Vec::new();
    let mut i: usize = 0;
    while i < OPTION_COUNT
        invariant
            i <= OPTION_COUNT,
            v@.len() == i,
            forall|k: int| 0 <= k < i ==> v@[k] == table(k),
        decreases OPTION_COUNT - i,
    {
        v.push(option_at(i));
        i = i + 1;
    }
    v
}

/// `i` is the first table entry whose long name is `name`.
pub open spec fn is_first_long(name: Seq<char>, i: int) -> bool {
    &&& 0 <= i < OPTION_COUNT
    &&& table(i).long@ == name
    &&& forall|j: int| 0 <= j < i ==> (#[trigger] table(j)).long@ != name
}

/// `i` is the first table entry whose short alias is `name`.
pub open spec fn is_first_short(name: Seq<char>, i: int) -> bool {
    &&& 0 <= i < OPTION_COUNT
    &&& table(i).short matches Some(s) && s@ == name
    &&& forall|j: int| 0 <= j < i ==> !((#[trigger] table(j)).short matches Some(s) && s@ == name)
}

/// The option whose long name is `name`.
pub open spec fn spec_by_long(name: Seq<char>) -> Option<OptionDef> {
    if exists|i: int| is_first_long(name, i) {
        Some(table(choose|i: int| is_first_long(name, i)))
    } else {
        None
    }
}

/// The option whose short alias is `name`.
pub open spec fn spec_by_short(name: Seq<char>) -> Option<OptionDef> {
    if exists|i: int| is_first_short(name, i) {
        Some(table(choose|i: int| is_first_short(name, i)))
    } else {
        None
    }
}

/// An option's canonical definition: deprecated aliases resolve to their target.
pub open spec fn spec_canonical(def: OptionDef) -> OptionDef {
    match def.alias_of {
        Some(name) => spec_by_long(name@).unwrap(),
        None => def,
    }
}

proof fn lemma_first_long_unique(name: Seq<char>, i: int, j: int)
    requires
        is_first_long(name, i),
        is_first_long(name, j),
    ensures
        i == j,
{
    if i < j {
        assert(table(i).long@ != name);
    } else if j < i {
        assert(table(j).long@ != name);
    }
}

proof fn lemma_first_short_unique(name: Seq<char>, i: int, j: int)
    requires
        is_first_short(name, i),
        is_first_short(name, j),
    ensures
        i == j,
{
    if i < j {
        assert(!(table(i).short matches Some(s) && s@ == name));
    } else if j < i {
        assert(!(table(j).short matches Some(s) && s@ == name));
    }
}

/// An entry named `name` at `k` means a first such entry exists.
pub proof fn lemma_long_exists(name: Seq<char>, k: int)
    requires
        0 <= k < OPTION_COUNT,
        table(k).long@ == name,
    ensures
        spec_by_long(name) is Some,
    decreases k,
{
    if forall|j: int| 0 <= j < k ==> (#[trigger] table(j)).long@ != name {
        assert(is_first_long(name, k));
    } else {
        let j = choose|j: int| 0 <= j < k && (#[trigger] table(j)).long@ == name;
        lemma_long_exists(name, j);
    }
}

/// The first entry named `name` is the one `spec_by_long` finds.
pub proof fn lemma_by_long_is(name: Seq<char>, k: int)
    requires
        is_first_long(name, k),
    ensures
        spec_by_long(name) == Some(table(k)),
{
    let j = choose|j: int| is_first_long(name, j);
    lemma_first_long_unique(name, k, j);
}

/// A deprecated alias names a canonical option (no alias chains) of the
/// same kind, recorded under the alias's target name.
pub proof fn law_aliases_name_canonical_options(i: int)
    requires
        0 <= i < OPTION_COUNT,
        table(i).alias_of is Some,
    ensures
        spec_canonical(table(i)).alias_of is None,
        spec_canonical(table(i)).kind == table(i).kind,
        spec_canonical(table(i)).long@ == table(i).alias_of.unwrap()@,
{
    reveal_strlit("messagealignment");
    reveal_strlit("centreicon");
    if i == 6 {
        law_by_long_finds_every_entry(4);
    } else {
        assert(i == 91);
        law_by_long_finds_every_entry(90);
    }
}

/// Every deprecated alias in the table names an option that exists.
pub proof fn lemma_aliases_resolve(i: int)
    requires
        0 <= i < OPTION_COUNT,
    ensures
        table(i).alias_of matches Some(n) ==> spec_by_long(n@) is Some,
{
    if i == 6 {
        lemma_long_exists(table(4).long@, 4);
    } else if i == 91 {
        lemma_long_exists(table(90).long@, 90);
    }
}

/// The canonical form of a table entry is itself a table entry.
pub proof fn lemma_canonical_in_table(k: int)
    requires
        0 <= k < OPTION_COUNT,
    ensures
        exists|j: int| 0 <= j < OPTION_COUNT && spec_canonical(table(k)) == table(j),
{
    lemma_aliases_resolve(k);
    match table(k).alias_of {
        Some(n) => {
            let j = choose|j: int| is_first_long(n@, j);
            assert(spec_canonical(table(k)) == table(j));
        },
        None => {
            assert(spec_canonical(table(k)) == table(k));
        },
    }
}

/// Look up an option by its long name.
pub fn by_long(name: &str) -> (r: Option<OptionDef>)
    ensures
        r == spec_by_long(name@),
{
    let mut i: usize = 0;
    while i < OPTION_COUNT
        invariant
            i <= OPTION_COUNT,
            forall|j: int| 0 <= j < i ==> (#[trigger] table(j)).long@ != name@,
        decreases OPTION_COUNT - i,
    {
        let o = option_at(i);
        if str_eq(o.long, name) {
            proof {
                assert(is_first_long(name@, i as int));
                let c = choose|c: int| is_first_long(name@, c);
                lemma_first_long_unique(name@, i as int, c);
            }
            return Some(o);
        }
        i = i + 1;
    }
    None
}

/// Look up an option by its short alias.
pub fn by_short(name: &str) -> (r: Option<OptionDef>)
    ensures
        r == spec_by_short(name@),
{
    let mut i: usize = 0;
    while i < OPTION_COUNT
        invariant
            i <= OPTION_COUNT,
            forall|j: int|
                0 <= j < i ==> !((#[trigger] table(j)).short matches Some(s) && s@ == name@),
        decreases OPTION_COUNT - i,
    {
        let o = option_at(i);
        match o.short {
            Some(s) => {
                if str_eq(s, name) {
                    proof {
                        assert(is_first_short(name@, i as int));
                        let c = choose|c: int| is_first_short(name@, c);
                        lemma_first_short_unique(name@, i as int, c);
                    }
                    return Some(o);
                }
            },
            None => {},
        }
        i = i + 1;
    }
    None
}

/// Resolve an option to its canonical definition, following deprecated
/// aliases (e.g. `--alignment` resolves to `messagealignment`).
pub fn canonical(def: OptionDef) -> (r: OptionDef)
    requires
        def.alias_of matches Some(n) ==> spec_by_long(n@) is Some,
    ensures
        r == spec_canonical(def),
{
    match def.alias_of {
        Some(name) => by_long(name).unwrap(),
        None => def,
    }
}

/// The canonical form of a table entry is a canonical entry that looking up
/// its long name finds.
pub proof fn lemma_canonical_found(k: int)
    requires
        0 <= k < OPTION_COUNT,
    ensures
        spec_by_long(spec_canonical(table(k)).long@) == Some(spec_canonical(table(k))),
        spec_canonical(table(k)).alias_of is None,
{
    lemma_canonical_in_table(k);
    let j = choose|j: int| 0 <= j < OPTION_COUNT && spec_canonical(table(k)) == table(j);
    law_by_long_finds_every_entry(j);
    if table(k).alias_of is Some {
        law_aliases_name_canonical_options(k);
    }
}

/// Looking up a long name finds an entry of that name, and finds one
/// exactly for the table's names.
pub proof fn law_by_long_finds_its_name(n: Seq<char>)
    ensures
        spec_by_long(n) matches Some(d) ==> d.long@ == n,
        spec_by_long(n) is Some <==> exists|i: int| 0 <= i < OPTION_COUNT && (#[trigger] table(i)).long@ == n,
{
    if exists|i: int| 0 <= i < OPTION_COUNT && (#[trigger] table(i)).long@ == n {
        let i = choose|i: int| 0 <= i < OPTION_COUNT && (#[trigger] table(i)).long@ == n;
        lemma_long_exists(n, i);
    }
    if spec_by_long(n) is Some {
        let i = choose|i: int| is_first_long(n, i);
        assert(table(i).long@ == n);
    }
}

/// The character at `k`, as a number (0 past either end).
pub open spec fn code_at(s: Seq<char>, k: int) -> int {
    if 0 <= k < s.len() {
        s[k] as int
    } else {
        0
    }
}

/// A number that tells the table's long names apart: the length and the
/// characters at positions 0, 2, 6 and fifth from the end.
pub open spec fn name_key(s: Seq<char>) -> int {
    s.len() * 268435456 + code_at(s, 0) * 2097152 + code_at(s, 2) * 16384 + code_at(s, 6) * 128
        + code_at(s, s.len() - 5)
}

/// The table entry whose long name has key `k` (-1 for none).
pub open spec fn key_entry(k: int) -> int {
    if k == 1587347572 {
        0
    } else if k == 2390275700 {
        1
    } else if k == 2109534963 {
        2
    } else if k == 1585332339 {
        3
    } else if k == 4525454062 {
        4
    } else if k == 3709547758 {
        5
    } else if k == 2621076206 {
        6
    } else if k == 4257018601 {
        7
    } else if k == 3172678131 {
        8
    } else if k == 2635804905 {
        9
    } else if k == 5320159982 {
        10
    } else if k == 1295761408 {
        11
    } else if k == 2369518958 {
        12
    } else if k == 2637953121 {
        13
    } else if k == 3174824564 {
        14
    } else if k == 3187244281 {
        15
    } else if k == 3160126697 {
        16
    } else if k == 3160128116 {
        17
    } else if k == 2891692658 {
        18
    } else if k == 3428562021 {
        19
    } else if k == 3160217777 {
        20
    } else if k == 3697088739 {
        21
    } else if k == 5039266019 {
        22
    } else if k == 3697088761 {
        23
    } else if k == 3160217906 {
        24
    } else if k == 3697088867 {
        25
    } else if k == 3697088889 {
        26
    } else if k == 3979983470 {
        27
    } else if k == 4516854371 {
        28
    } else if k == 4516854393 {
        29
    } else if k == 3160226291 {
        30
    } else if k == 2891790830 {
        31
    } else if k == 3965532788 {
        32
    } else if k == 3195746932 {
        33
    } else if k == 3464182625 {
        34
    } else if k == 3732615782 {
        35
    } else if k == 3195746803 {
        36
    } else if k == 2661103589 {
        37
    } else if k == 3183276773 {
        38
    } else if k == 2661167846 {
        39
    } else if k == 6419264225 {
        40
    } else if k == 2356770787 {
        41
    } else if k == 3698948083 {
        42
    } else if k == 1587232884 {
        43
    } else if k == 2384198119 {
        44
    } else if k == 3457939955 {
        45
    } else if k == 5873859054 {
        46
    } else if k == 1563967593 {
        47
    } else if k == 3443028208 {
        48
    } else if k == 1593376887 {
        49
    } else if k == 1830436965 {
        50
    } else if k == 2891511794 {
        51
    } else if k == 2086170849 {
        52
    } else if k == 2891725417 {
        53
    } else if k == 1817804903 {
        54
    } else if k == 2086466291 {
        55
    } else if k == 2384263145 {
        56
    } else if k == 3994875878 {
        57
    } else if k == 1591279734 {
        58
    } else if k == 3470340336 {
        59
    } else if k == 1553498212 {
        60
    } else if k == 2371614318 {
        61
    } else if k == 2908486004 {
        62
    } else if k == 3162206820 {
        63
    } else if k == 2375873268 {
        64
    } else if k == 2644311283 {
        65
    } else if k == 4508382821 {
        66
    } else if k == 2369371247 {
        67
    } else if k == 2100935782 {
        68
    } else if k == 2117762281 {
        69
    } else if k == 2935536238 {
        70
    } else if k == 1031684096 {
        71
    } else if k == 2356771555 {
        72
    } else if k == 2895969505 {
        73
    } else if k == 2912549491 {
        74
    } else if k == 2665050735 {
        75
    } else if k == 2889625842 {
        76
    } else if k == 2122135412 {
        77
    } else if k == 2906223465 {
        78
    } else if k == 1041825792 {
        79
    } else if k == 1585266803 {
        80
    } else if k == 2358835179 {
        81
    } else if k == 3701012450 {
        82
    } else if k == 2650306422 {
        83
    } else if k == 4233959649 {
        84
    } else if k == 4233959777 {
        85
    } else if k == 2086476148 {
        86
    } else if k == 2906241653 {
        87
    } else if k == 2128394098 {
        88
    } else if k == 2367240165 {
        89
    } else if k == 2893788389 {
        90
    } else if k == 2893788402 {
        91
    } else if k == 1293615104 {
        92
    } else if k == 1285242880 {
        93
    } else if k == 1819902063 {
        94
    } else if k == 2107175651 {
        95
    } else if k == 3204232167 {
        96
    } else if k == 2369370095 {
        97
    } else if k == 3162339182 {
        98
    } else if k == 3440981733 {
        99
    } else if k == 2635675380 {
        100
    } else if k == 2352820463 {
        101
    } else if k == 2891807075 {
        102
    } else if k == 3453825505 {
        103
    } else if k == 2128392946 {
        104
    } else if k == 3464229355 {
        105
    } else if k == 2086304105 {
        106
    } else if k == 2378020453 {
        107
    } else if k == 1576861807 {
        108
    } else if k == 1584939123 {
        109
    } else if k == 1012514816 {
        110
    } else if k == 2900048227 {
        111
    } else if k == 2923066606 {
        112
    } else if k == 2644309862 {
        113
    } else if k == 1297858560 {
        114
    } else if k == 2637935218 {
        115
    } else if k == 759169024 {
        116
    } else if k == 1304133632 {
        117
    } else if k == 1287323648 {
        118
    } else if k == 3457776225 {
        119
    } else if k == 3741036916 {
        120
    } else if k == 2656891258 {
        121
    } else if k == 4537970930 {
        122
    } else if k == 6655866735 {
        123
    } else if k == 3180983529 {
        124
    } else if k == 6930641763 {
        125
    } else if k == 4768790889 {
        126
    } else if k == 1851474021 {
        127
    } else if k == 4806408948 {
        128
    } else if k == 3709416562 {
        129
    } else if k == 3443325485 {
        130
    } else if k == 3980196463 {
        131
    } else {
        -1
    }
}

proof fn lemma_key_entry_0(i: int)
    requires
        0 <= i < 22,
    ensures
        key_entry(name_key(table(i).long@)) == i,
{
    reveal_strlit("title");
    reveal_strlit("subtitle");
    reveal_strlit("message");
    reveal_strlit("style");
    reveal_strlit("messagealignment");
    reveal_strlit("helpalignment");
    reveal_strlit("alignment");
    reveal_strlit("messageposition");
    reveal_strlit("helpmessage");
    reveal_strlit("helpimage");
    reveal_strlit("helpsheetbuttontext");
    reveal_strlit("icon");
    reveal_strlit("iconsize");
    reveal_strlit("iconalpha");
    reveal_strlit("iconalttext");
    reveal_strlit("overlayicon");
    reveal_strlit("bannerimage");
    reveal_strlit("bannertitle");
    reveal_strlit("bannertext");
    reveal_strlit("bannerheight");
    reveal_strlit("button1text");
    reveal_strlit("button1action");
    if i == 0 {
        assert(name_key(table(i).long@) == 1587347572);
    } else if i == 1 {
        assert(name_key(table(i).long@) == 2390275700);
    } else if i == 2 {
        assert(name_key(table(i).long@) == 2109534963);
    } else if i == 3 {
        assert(name_key(table(i).long@) == 1585332339);
    } else if i == 4 {
        assert(name_key(table(i).long@) == 4525454062);
    } else if i == 5 {
        assert(name_key(table(i).long@) == 3709547758);
    } else if i == 6 {
        assert(name_key(table(i).long@) == 2621076206);
    } else if i == 7 {
        assert(name_key(table(i).long@) == 4257018601);
    } else if i == 8 {
        assert(name_key(table(i).long@) == 3172678131);
    } else if i == 9 {
        assert(name_key(table(i).long@) == 2635804905);
    } else if i == 10 {
        assert(name_key(table(i).long@) == 5320159982);
    } else if i == 11 {
        assert(name_key(table(i).long@) == 1295761408);
    } else if i == 12 {
        assert(name_key(table(i).long@) == 2369518958);
    } else if i == 13 {
        assert(name_key(table(i).long@) == 2637953121);
    } else if i == 14 {
        assert(name_key(table(i).long@) == 3174824564);
    } else if i == 15 {
        assert(name_key(table(i).long@) == 3187244281);
    } else if i == 16 {
        assert(name_key(table(i).long@) == 3160126697);
    } else if i == 17 {
        assert(name_key(table(i).long@) == 3160128116);
    } else if i == 18 {
        assert(name_key(table(i).long@) == 2891692658);
    } else if i == 19 {
        assert(name_key(table(i).long@) == 3428562021);
    } else if i == 20 {
        assert(name_key(table(i).long@) == 3160217777);
    } else if i == 21 {
        assert(name_key(table(i).long@) == 3697088739);
    }
}

proof fn lemma_key_entry_22(i: int)
    requires
        22 <= i < 44,
    ensures
        key_entry(name_key(table(i).long@)) == i,
{
    reveal_strlit("button1shellaction");
    reveal_strlit("button1symbol");
    reveal_strlit("button2text");
    reveal_strlit("button2action");
    reveal_strlit("button2symbol");
    reveal_strlit("infobuttontext");
    reveal_strlit("infobuttonaction");
    reveal_strlit("infobuttonsymbol");
    reveal_strlit("buttonstyle");
    reveal_strlit("buttonsize");
    reveal_strlit("buttontextsize");
    reveal_strlit("selecttitle");
    reveal_strlit("selectvalues");
    reveal_strlit("selectdefault");
    reveal_strlit("selectstyle");
    reveal_strlit("titlefont");
    reveal_strlit("messagefont");
    reveal_strlit("textfield");
    reveal_strlit("textfieldlivevalidation");
    reveal_strlit("checkbox");
    reveal_strlit("checkboxstyle");
    reveal_strlit("timer");
    if i == 22 {
        assert(name_key(table(i).long@) == 5039266019);
    } else if i == 23 {
        assert(name_key(table(i).long@) == 3697088761);
    } else if i == 24 {
        assert(name_key(table(i).long@) == 3160217906);
    } else if i == 25 {
        assert(name_key(table(i).long@) == 3697088867);
    } else if i == 26 {
        assert(name_key(table(i).long@) == 3697088889);
    } else if i == 27 {
        assert(name_key(table(i).long@) == 3979983470);
    } else if i == 28 {
        assert(name_key(table(i).long@) == 4516854371);
    } else if i == 29 {
        assert(name_key(table(i).long@) == 4516854393);
    } else if i == 30 {
        assert(name_key(table(i).long@) == 3160226291);
    } else if i == 31 {
        assert(name_key(table(i).long@) == 2891790830);
    } else if i == 32 {
        assert(name_key(table(i).long@) == 3965532788);
    } else if i == 33 {
        assert(name_key(table(i).long@) == 3195746932);
    } else if i == 34 {
        assert(name_key(table(i).long@) == 3464182625);
    } else if i == 35 {
        assert(name_key(table(i).long@) == 3732615782);
    } else if i == 36 {
        assert(name_key(table(i).long@) == 3195746803);
    } else if i == 37 {
        assert(name_key(table(i).long@) == 2661103589);
    } else if i == 38 {
        assert(name_key(table(i).long@) == 3183276773);
    } else if i == 39 {
        assert(name_key(table(i).long@) == 2661167846);
    } else if i == 40 {
        assert(name_key(table(i).long@) == 6419264225);
    } else if i == 41 {
        assert(name_key(table(i).long@) == 2356770787);
    } else if i == 42 {
        assert(name_key(table(i).long@) == 3698948083);
    } else if i == 43 {
        assert(name_key(table(i).long@) == 1587232884);
    }
}

proof fn lemma_key_entry_44(i: int)
    requires
        44 <= i < 66,
    ensures
        key_entry(name_key(table(i).long@)) == i,
{
    reveal_strlit("progress");
    reveal_strlit("progresstext");
    reveal_strlit("progresstextalignment");
    reveal_strlit("image");
    reveal_strlit("imagecaption");
    reveal_strlit("width");
    reveal_strlit("height");
    reveal_strlit("background");
    reveal_strlit("bgalpha");
    reveal_strlit("bgposition");
    reveal_strlit("bgfill");
    reveal_strlit("bgscale");
    reveal_strlit("position");
    reveal_strlit("positionoffset");
    reveal_strlit("video");
    reveal_strlit("videocaption");
    reveal_strlit("debug");
    reveal_strlit("jsonfile");
    reveal_strlit("jsonstring");
    reveal_strlit("commandfile");
    reveal_strlit("listitem");
    reveal_strlit("liststyle");
    if i == 44 {
        assert(name_key(table(i).long@) == 2384198119);
    } else if i == 45 {
        assert(name_key(table(i).long@) == 3457939955);
    } else if i == 46 {
        assert(name_key(table(i).long@) == 5873859054);
    } else if i == 47 {
        assert(name_key(table(i).long@) == 1563967593);
    } else if i == 48 {
        assert(name_key(table(i).long@) == 3443028208);
    } else if i == 49 {
        assert(name_key(table(i).long@) == 1593376887);
    } else if i == 50 {
        assert(name_key(table(i).long@) == 1830436965);
    } else if i == 51 {
        assert(name_key(table(i).long@) == 2891511794);
    } else if i == 52 {
        assert(name_key(table(i).long@) == 2086170849);
    } else if i == 53 {
        assert(name_key(table(i).long@) == 2891725417);
    } else if i == 54 {
        assert(name_key(table(i).long@) == 1817804903);
    } else if i == 55 {
        assert(name_key(table(i).long@) == 2086466291);
    } else if i == 56 {
        assert(name_key(table(i).long@) == 2384263145);
    } else if i == 57 {
        assert(name_key(table(i).long@) == 3994875878);
    } else if i == 58 {
        assert(name_key(table(i).long@) == 1591279734);
    } else if i == 59 {
        assert(name_key(table(i).long@) == 3470340336);
    } else if i == 60 {
        assert(name_key(table(i).long@) == 1553498212);
    } else if i == 61 {
        assert(name_key(table(i).long@) == 2371614318);
    } else if i == 62 {
        assert(name_key(table(i).long@) == 2908486004);
    } else if i == 63 {
        assert(name_key(table(i).long@) == 3162206820);
    } else if i == 64 {
        assert(name_key(table(i).long@) == 2375873268);
    } else if i == 65 {
        assert(name_key(table(i).long@) == 2644311283);
    }
}

proof fn lemma_key_entry_66(i: int)
    requires
        66 <= i < 88,
    ensures
        key_entry(name_key(table(i).long@)) == i,
{
    reveal_strlit("enablelistselect");
    reveal_strlit("infotext");
    reveal_strlit("infobox");
    reveal_strlit("quitkey");
    reveal_strlit("webcontent");
    reveal_strlit("key");
    reveal_strlit("checksum");
    reveal_strlit("displaylog");
    reveal_strlit("loghistory");
    reveal_strlit("vieworder");
    reveal_strlit("appearance");
    reveal_strlit("seticon");
    reveal_strlit("identifier");
    reveal_strlit("pid");
    reveal_strlit("sound");
    reveal_strlit("dockicon");
    reveal_strlit("dockiconbadge");
    reveal_strlit("onadvance");
    reveal_strlit("button1disabled");
    reveal_strlit("button2disabled");
    reveal_strlit("button2");
    reveal_strlit("infobutton");
    if i == 66 {
        assert(name_key(table(i).long@) == 4508382821);
    } else if i == 67 {
        assert(name_key(table(i).long@) == 2369371247);
    } else if i == 68 {
        assert(name_key(table(i).long@) == 2100935782);
    } else if i == 69 {
        assert(name_key(table(i).long@) == 2117762281);
    } else if i == 70 {
        assert(name_key(table(i).long@) == 2935536238);
    } else if i == 71 {
        assert(name_key(table(i).long@) == 1031684096);
    } else if i == 72 {
        assert(name_key(table(i).long@) == 2356771555);
    } else if i == 73 {
        assert(name_key(table(i).long@) == 2895969505);
    } else if i == 74 {
        assert(name_key(table(i).long@) == 2912549491);
    } else if i == 75 {
        assert(name_key(table(i).long@) == 2665050735);
    } else if i == 76 {
        assert(name_key(table(i).long@) == 2889625842);
    } else if i == 77 {
        assert(name_key(table(i).long@) == 2122135412);
    } else if i == 78 {
        assert(name_key(table(i).long@) == 2906223465);
    } else if i == 79 {
        assert(name_key(table(i).long@) == 1041825792);
    } else if i == 80 {
        assert(name_key(table(i).long@) == 1585266803);
    } else if i == 81 {
        assert(name_key(table(i).long@) == 2358835179);
    } else if i == 82 {
        assert(name_key(table(i).long@) == 3701012450);
    } else if i == 83 {
        assert(name_key(table(i).long@) == 2650306422);
    } else if i == 84 {
        assert(name_key(table(i).long@) == 4233959649);
    } else if i == 85 {
        assert(name_key(table(i).long@) == 4233959777);
    } else if i == 86 {
        assert(name_key(table(i).long@) == 2086476148);
    } else if i == 87 {
        assert(name_key(table(i).long@) == 2906241653);
    }
}

proof fn lemma_key_entry_88(i: int)
    requires
        88 <= i < 110,
    ensures
        key_entry(name_key(table(i).long@)) == i,
{
    reveal_strlit("version");
    reveal_strlit("hideicon");
    reveal_strlit("centreicon");
    reveal_strlit("centericon");
    reveal_strlit("help");
    reveal_strlit("demo");
    reveal_strlit("coffee");
    reveal_strlit("licence");
    reveal_strlit("warningicon");
    reveal_strlit("infoicon");
    reveal_strlit("cautionicon");
    reveal_strlit("hidetimerbar");
    reveal_strlit("hidetimer");
    reveal_strlit("autoplay");
    reveal_strlit("blurscreen");
    reveal_strlit("notification");
    reveal_strlit("verbose");
    reveal_strlit("showdockicon");
    reveal_strlit("builder");
    reveal_strlit("moveable");
    reveal_strlit("ontop");
    reveal_strlit("small");
    if i == 88 {
        assert(name_key(table(i).long@) == 2128394098);
    } else if i == 89 {
        assert(name_key(table(i).long@) == 2367240165);
    } else if i == 90 {
        assert(name_key(table(i).long@) == 2893788389);
    } else if i == 91 {
        assert(name_key(table(i).long@) == 2893788402);
    } else if i == 92 {
        assert(name_key(table(i).long@) == 1293615104);
    } else if i == 93 {
        assert(name_key(table(i).long@) == 1285242880);
    } else if i == 94 {
        assert(name_key(table(i).long@) == 1819902063);
    } else if i == 95 {
        assert(name_key(table(i).long@) == 2107175651);
    } else if i == 96 {
        assert(name_key(table(i).long@) == 3204232167);
    } else if i == 97 {
        assert(name_key(table(i).long@) == 2369370095);
    } else if i == 98 {
        assert(name_key(table(i).long@) == 3162339182);
    } else if i == 99 {
        assert(name_key(table(i).long@) == 3440981733);
    } else if i == 100 {
        assert(name_key(table(i).long@) == 2635675380);
    } else if i == 101 {
        assert(name_key(table(i).long@) == 2352820463);
    } else if i == 102 {
        assert(name_key(table(i).long@) == 2891807075);
    } else if i == 103 {
        assert(name_key(table(i).long@) == 3453825505);
    } else if i == 104 {
        assert(name_key(table(i).long@) == 2128392946);
    } else if i == 105 {
        assert(name_key(table(i).long@) == 3464229355);
    } else if i == 106 {
        assert(name_key(table(i).long@) == 2086304105);
    } else if i == 107 {
        assert(name_key(table(i).long@) == 2378020453);
    } else if i == 108 {
        assert(name_key(table(i).long@) == 1576861807);
    } else if i == 109 {
        assert(name_key(table(i).long@) == 1584939123);
    }
}

proof fn lemma_key_entry_110(i: int)
    requires
        110 <= i < 132,
    ensures
        key_entry(name_key(table(i).long@)) == i,
{
    reveal_strlit("big");
    reveal_strlit("fullscreen");
    reveal_strlit("quitoninfo");
    reveal_strlit("listfonts");
    reveal_strlit("json");
    reveal_strlit("ignorednd");
    reveal_strlit("jh");
    reveal_strlit("mini");
    reveal_strlit("eula");
    reveal_strlit("presentation");
    reveal_strlit("windowbuttons");
    reveal_strlit("resizable");
    reveal_strlit("showonallscreens");
    reveal_strlit("enablenotificationsounds");
    reveal_strlit("loginwindow");
    reveal_strlit("hidedefaultkeyboardaction");
    reveal_strlit("alwaysreturninput");
    reveal_strlit("remove");
    reveal_strlit("showsoundcontrols");
    reveal_strlit("hideotherapps");
    reveal_strlit("inspect-mode");
    reveal_strlit("inspect-config");
    if i == 110 {
        assert(name_key(table(i).long@) == 1012514816);
    } else if i == 111 {
        assert(name_key(table(i).long@) == 2900048227);
    } else if i == 112 {
        assert(name_key(table(i).long@) == 2923066606);
    } else if i == 113 {
        assert(name_key(table(i).long@) == 2644309862);
    } else if i == 114 {
        assert(name_key(table(i).long@) == 1297858560);
    } else if i == 115 {
        assert(name_key(table(i).long@) == 2637935218);
    } else if i == 116 {
        assert(name_key(table(i).long@) == 759169024);
    } else if i == 117 {
        assert(name_key(table(i).long@) == 1304133632);
    } else if i == 118 {
        assert(name_key(table(i).long@) == 1287323648);
    } else if i == 119 {
        assert(name_key(table(i).long@) == 3457776225);
    } else if i == 120 {
        assert(name_key(table(i).long@) == 3741036916);
    } else if i == 121 {
        assert(name_key(table(i).long@) == 2656891258);
    } else if i == 122 {
        assert(name_key(table(i).long@) == 4537970930);
    } else if i == 123 {
        assert(name_key(table(i).long@) == 6655866735);
    } else if i == 124 {
        assert(name_key(table(i).long@) == 3180983529);
    } else if i == 125 {
        assert(name_key(table(i).long@) == 6930641763);
    } else if i == 126 {
        assert(name_key(table(i).long@) == 4768790889);
    } else if i == 127 {
        assert(name_key(table(i).long@) == 1851474021);
    } else if i == 128 {
        assert(name_key(table(i).long@) == 4806408948);
    } else if i == 129 {
        assert(name_key(table(i).long@) == 3709416562);
    } else if i == 130 {
        assert(name_key(table(i).long@) == 3443325485);
    } else if i == 131 {
        assert(name_key(table(i).long@) == 3980196463);
    }
}

/// Each entry is the one its long name's key points to.
pub proof fn lemma_key_entry(i: int)
    requires
        0 <= i < OPTION_COUNT,
    ensures
        key_entry(name_key(table(i).long@)) == i,
{
    if i < 22 {
        lemma_key_entry_0(i);
    } else if i < 44 {
        lemma_key_entry_22(i);
    } else if i < 66 {
        lemma_key_entry_44(i);
    } else if i < 88 {
        lemma_key_entry_66(i);
    } else if i < 110 {
        lemma_key_entry_88(i);
    } else {
        lemma_key_entry_110(i);
    }
}

/// The table's long names are distinct.
pub proof fn law_long_names_distinct(i: int, j: int)
    requires
        0 <= i < OPTION_COUNT,
        0 <= j < OPTION_COUNT,
        i != j,
    ensures
        table(i).long@ != table(j).long@,
{
    lemma_key_entry(i);
    lemma_key_entry(j);
}

/// Every entry is found by its long name.
pub proof fn law_by_long_finds_every_entry(i: int)
    requires
        0 <= i < OPTION_COUNT,
    ensures
        spec_by_long(table(i).long@) == Some(table(i)),
{
    assert forall|j: int| 0 <= j < i implies (#[trigger] table(j)).long@ != table(i).long@ by {
        law_long_names_distinct(j, i);
    }
    assert(is_first_long(table(i).long@, i));
    lemma_by_long_is(table(i).long@, i);
}

} // verus!
