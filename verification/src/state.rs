//! The declarative dialog state handed to the renderer. The webview renders
//! exactly this model and emits semantic events back; all contract logic
//! stays on this side.

use crate::icon::{opt_view, IconRender, IconRenderV};
use crate::number::Decimal;
use crate::compat::Platform;
use crate::config::{spec_present, spec_value, Config};
use crate::elements::{
    or_else, parse_checkboxes, parse_list_items, parse_selects, parse_text_fields,
    spec_checkboxes, spec_list_items, spec_selects, spec_text_fields,
};
use crate::number::{parse_decimal, spec_parse_decimal};
use crate::text::{chars_of, range_is, str_eq, string_of, trim, trim_bounds};
use vstd::string::*;
use vstd::prelude::*;

verus! {

broadcast use vstd::string::group_string_axioms;

#[derive(Clone, Copy, Debug, PartialEq, Eq, Structural)]
pub enum Alignment {
    Left,
    Center,
    Right,
}

/// swiftDialog's alignment values (`centre` accepted; anything else is left).
pub open spec fn spec_alignment(s: Seq<char>) -> Alignment {
    if s == "center"@ || s == "centre"@ {
        Alignment::Center
    } else if s == "right"@ {
        Alignment::Right
    } else {
        Alignment::Left
    }
}

impl Alignment {
    /// Parse swiftDialog's alignment values (`centre` accepted).
    pub fn parse_str(s: &str) -> (r: Alignment)
        ensures
            r == spec_alignment(s@),
    {
        let v = chars_of(s);
        assert(v@.subrange(0, v@.len() as int) =~= s@);
        if range_is(&v, 0, v.len(), "center") || range_is(&v, 0, v.len(), "centre") {
            Alignment::Center
        } else if range_is(&v, 0, v.len(), "right") {
            Alignment::Right
        } else {
            Alignment::Left
        }
    }
}

#[derive(Clone, Debug, PartialEq, Eq)]
pub struct ButtonState {
    pub text: String,
    pub visible: bool,
    pub enabled: bool,
    pub action: Option<String>,
}

pub struct ButtonV {
    pub text: Seq<char>,
    pub visible: bool,
    pub enabled: bool,
    pub action: Option<Seq<char>>,
}

impl View for ButtonState {
    type V = ButtonV;

    open spec fn view(&self) -> ButtonV {
        ButtonV {
            text: self.text@,
            visible: self.visible,
            enabled: self.enabled,
            action: opt_view(self.action),
        }
    }
}

#[derive(Clone, Debug, PartialEq)]
pub struct IconState {
    /// Raw `--icon` value; resolution to a concrete image happens in the
    /// icon pipeline.
    pub source: String,
    pub size: Decimal,
    pub alpha: Decimal,
    pub alt_text: String,
    pub overlay: Option<String>,
    pub hidden: bool,
    /// What the renderer draws; a placeholder until the icon is resolved.
    pub render: IconRender,
    /// What the renderer draws for the overlay badge, once resolved.
    pub overlay_render: Option<IconRender>,
}

pub struct IconV {
    pub source: Seq<char>,
    pub size: int,
    pub alpha: int,
    pub alt_text: Seq<char>,
    pub overlay: Option<Seq<char>>,
    pub hidden: bool,
    pub render: IconRenderV,
    pub overlay_render: Option<IconRenderV>,
}

pub open spec fn opt_render_view(o: Option<IconRender>) -> Option<IconRenderV> {
    match o {
        Some(r) => Some(r@),
        None => None,
    }
}

impl View for IconState {
    type V = IconV;

    open spec fn view(&self) -> IconV {
        IconV {
            source: self.source@,
            size: self.size.value(),
            alpha: self.alpha.value(),
            alt_text: self.alt_text@,
            overlay: opt_view(self.overlay),
            hidden: self.hidden,
            render: self.render@,
            overlay_render: opt_render_view(self.overlay_render),
        }
    }
}

/// `--bannerimage` with its optional `--bannertitle`/`--bannertext`.
#[derive(Clone, Debug, PartialEq)]
pub struct BannerState {
    pub source: String,
    pub title: Option<String>,
    pub render: IconRender,
}

pub struct BannerV {
    pub source: Seq<char>,
    pub title: Option<Seq<char>>,
    pub render: IconRenderV,
}

impl View for BannerState {
    type V = BannerV;

    open spec fn view(&self) -> BannerV {
        BannerV { source: self.source@, title: opt_view(self.title), render: self.render@ }
    }
}

/// `--background` image behind the dialog content.
#[derive(Clone, Debug, PartialEq)]
pub struct BackgroundState {
    pub source: String,
    pub render: IconRender,
}

pub struct BackgroundV {
    pub source: Seq<char>,
    pub render: IconRenderV,
}

impl View for BackgroundState {
    type V = BackgroundV;

    open spec fn view(&self) -> BackgroundV {
        BackgroundV { source: self.source@, render: self.render@ }
    }
}

#[derive(Clone, Copy, Debug, PartialEq)]
pub struct TimerState {
    pub seconds: Decimal,
    pub hide_bar: bool,
}

pub struct TimerV {
    pub seconds: int,
    pub hide_bar: bool,
}

impl View for TimerState {
    type V = TimerV;

    open spec fn view(&self) -> TimerV {
        TimerV { seconds: self.seconds.value(), hide_bar: self.hide_bar }
    }
}

#[derive(Clone, Debug, PartialEq)]
pub struct ListItemState {
    pub title: String,
    pub subtitle: Option<String>,
    pub icon: Option<String>,
    /// "" | wait | progress | success | fail | error | pending | none.
    pub status: String,
    pub status_text: String,
    /// Per-row progress percent when status is "progress".
    pub progress: Option<Decimal>,
    /// Selection state under --enablelistselect.
    pub selected: bool,
}

pub struct ListItemV {
    pub title: Seq<char>,
    pub subtitle: Option<Seq<char>>,
    pub icon: Option<Seq<char>>,
    pub status: Seq<char>,
    pub status_text: Seq<char>,
    pub progress: Option<int>,
    pub selected: bool,
}

pub open spec fn opt_decimal(o: Option<Decimal>) -> Option<int> {
    match o {
        Some(d) => Some(d.value()),
        None => None,
    }
}

impl View for ListItemState {
    type V = ListItemV;

    open spec fn view(&self) -> ListItemV {
        ListItemV {
            title: self.title@,
            subtitle: opt_view(self.subtitle),
            icon: opt_view(self.icon),
            status: self.status@,
            status_text: self.status_text@,
            progress: opt_decimal(self.progress),
            selected: self.selected,
        }
    }
}

/// A fresh row: the title, empty status, nothing else.
pub open spec fn new_item(title: Seq<char>) -> ListItemV {
    ListItemV {
        title,
        subtitle: None,
        icon: None,
        status: Seq::empty(),
        status_text: Seq::empty(),
        progress: None,
        selected: false,
    }
}

impl ListItemState {
    pub fn new(title: String) -> (r: ListItemState)
        ensures
            r@ == new_item(title@),
    {
        ListItemState {
            title,
            subtitle: None,
            icon: None,
            status: String::new(),
            status_text: String::new(),
            progress: None,
            selected: false,
        }
    }
}

#[derive(Clone, Debug, PartialEq)]
pub struct ProgressState {
    /// Total steps (`--progress <n>`, default 100 when created by a verb).
    pub total: Decimal,
    /// None = indeterminate.
    pub current: Option<Decimal>,
    /// `--progresstext` / `progresstext:` line under the bar.
    pub text: String,
    pub visible: bool,
}

pub struct ProgressV {
    pub total: int,
    pub current: Option<int>,
    pub text: Seq<char>,
    pub visible: bool,
}

impl View for ProgressState {
    type V = ProgressV;

    open spec fn view(&self) -> ProgressV {
        ProgressV {
            total: self.total.value(),
            current: opt_decimal(self.current),
            text: self.text@,
            visible: self.visible,
        }
    }
}

#[derive(Clone, Debug, PartialEq)]
pub struct WindowState {
    pub width: Decimal,
    pub height: Decimal,
    /// `--position` anchor (topleft..bottomright); None = centered.
    pub position: Option<String>,
    pub position_offset: Decimal,
    pub ontop: bool,
    pub moveable: bool,
    pub resizable: bool,
    /// "light" | "dark" | None (follow OS).
    pub appearance: Option<String>,
}

pub struct WindowV {
    pub width: int,
    pub height: int,
    pub position: Option<Seq<char>>,
    pub position_offset: int,
    pub ontop: bool,
    pub moveable: bool,
    pub resizable: bool,
    pub appearance: Option<Seq<char>>,
}

impl View for WindowState {
    type V = WindowV;

    open spec fn view(&self) -> WindowV {
        WindowV {
            width: self.width.value(),
            height: self.height.value(),
            position: opt_view(self.position),
            position_offset: self.position_offset.value(),
            ontop: self.ontop,
            moveable: self.moveable,
            resizable: self.resizable,
            appearance: opt_view(self.appearance),
        }
    }
}

#[derive(Clone, Debug, PartialEq, Eq)]
pub struct TextFieldState {
    /// `name=` if given, else the title — the output key.
    pub name: String,
    pub title: String,
    pub value: String,
    pub prompt: Option<String>,
    pub secure: bool,
    pub required: bool,
    pub regex: Option<String>,
    pub regex_error: Option<String>,
    pub is_date: bool,
}

pub struct TextFieldV {
    pub name: Seq<char>,
    pub title: Seq<char>,
    pub value: Seq<char>,
    pub prompt: Option<Seq<char>>,
    pub secure: bool,
    pub required: bool,
    pub regex: Option<Seq<char>>,
    pub regex_error: Option<Seq<char>>,
    pub is_date: bool,
}

impl View for TextFieldState {
    type V = TextFieldV;

    open spec fn view(&self) -> TextFieldV {
        TextFieldV {
            name: self.name@,
            title: self.title@,
            value: self.value@,
            prompt: opt_view(self.prompt),
            secure: self.secure,
            required: self.required,
            regex: opt_view(self.regex),
            regex_error: opt_view(self.regex_error),
            is_date: self.is_date,
        }
    }
}

#[derive(Clone, Debug, PartialEq, Eq)]
pub struct CheckboxState {
    pub name: String,
    pub label: String,
    pub checked: bool,
    pub disabled: bool,
    /// "checkbox" | "switch" (from --checkboxstyle).
    pub style: String,
}

pub struct CheckboxV {
    pub name: Seq<char>,
    pub label: Seq<char>,
    pub checked: bool,
    pub disabled: bool,
    pub style: Seq<char>,
}

impl View for CheckboxState {
    type V = CheckboxV;

    open spec fn view(&self) -> CheckboxV {
        CheckboxV {
            name: self.name@,
            label: self.label@,
            checked: self.checked,
            disabled: self.disabled,
            style: self.style@,
        }
    }
}

#[derive(Clone, Debug, PartialEq, Eq)]
pub struct SelectState {
    pub name: String,
    pub title: String,
    pub values: Vec<String>,
    pub selected: String,
    pub required: bool,
    /// "dropdown" | "radio" (from --selectstyle or the `radio` flag).
    pub style: String,
}

pub struct SelectV {
    pub name: Seq<char>,
    pub title: Seq<char>,
    pub values: Seq<Seq<char>>,
    pub selected: Seq<char>,
    pub required: bool,
    pub style: Seq<char>,
}

pub open spec fn strings_view(v: Seq<String>) -> Seq<Seq<char>> {
    v.map_values(|s: String| s@)
}

impl View for SelectState {
    type V = SelectV;

    open spec fn view(&self) -> SelectV {
        SelectV {
            name: self.name@,
            title: self.title@,
            values: strings_view(self.values@),
            selected: self.selected@,
            required: self.required,
            style: self.style@,
        }
    }
}

/// Everything the renderer needs to draw the dialog.
#[derive(Clone, Debug, PartialEq)]
pub struct DialogState {
    /// "macos" | "windows" | "linux" — drives the renderer's theme.
    pub platform: String,
    /// None = `--title none` (hide the title area).
    pub title: Option<String>,
    pub subtitle: Option<String>,
    /// Markdown source.
    pub message: String,
    pub message_alignment: Alignment,
    /// "top" | "centre"/"center" | "bottom"; renderer default = top.
    pub message_position: Option<String>,
    /// Raw `--titlefont` / `--messagefont` specs (`size=,colour=,...`).
    pub title_font: Option<String>,
    pub message_font: Option<String>,
    pub icon: IconState,
    pub banner: Option<BannerState>,
    pub background: Option<BackgroundState>,
    pub button1: ButtonState,
    pub button2: ButtonState,
    pub info_button: ButtonState,
    pub timer: Option<TimerState>,
    pub list_items: Vec<ListItemState>,
    pub list_select_enabled: bool,
    /// `--liststyle` (compact | expanded).
    pub list_style: Option<String>,
    pub text_fields: Vec<TextFieldState>,
    pub checkboxes: Vec<CheckboxState>,
    pub selects: Vec<SelectState>,
    pub progress: Option<ProgressState>,
    /// `--infotext` / `infotext:` — small text in the bottom-left.
    pub info_text: Option<String>,
    pub window: WindowState,
    /// Compact 540×128 layout (`--mini` or `--style mini`).
    pub mini: bool,
    /// `--style` preset (centred/alert/caution/warning/presentation/...).
    pub style: Option<String>,
    /// Quit key character (Cmd/Ctrl+<key> exits 10). Default "q".
    pub quit_key: String,
}

pub struct DialogV {
    pub platform: Seq<char>,
    pub title: Option<Seq<char>>,
    pub subtitle: Option<Seq<char>>,
    pub message: Seq<char>,
    pub message_alignment: Alignment,
    pub message_position: Option<Seq<char>>,
    pub title_font: Option<Seq<char>>,
    pub message_font: Option<Seq<char>>,
    pub icon: IconV,
    pub banner: Option<BannerV>,
    pub background: Option<BackgroundV>,
    pub button1: ButtonV,
    pub button2: ButtonV,
    pub info_button: ButtonV,
    pub timer: Option<TimerV>,
    pub list_items: Seq<ListItemV>,
    pub list_select_enabled: bool,
    pub list_style: Option<Seq<char>>,
    pub text_fields: Seq<TextFieldV>,
    pub checkboxes: Seq<CheckboxV>,
    pub selects: Seq<SelectV>,
    pub progress: Option<ProgressV>,
    pub info_text: Option<Seq<char>>,
    pub window: WindowV,
    pub mini: bool,
    pub style: Option<Seq<char>>,
    pub quit_key: Seq<char>,
}

pub open spec fn items_view(v: Seq<ListItemState>) -> Seq<ListItemV> {
    v.map_values(|i: ListItemState| i@)
}

pub open spec fn fields_view(v: Seq<TextFieldState>) -> Seq<TextFieldV> {
    v.map_values(|f: TextFieldState| f@)
}

pub open spec fn boxes_view(v: Seq<CheckboxState>) -> Seq<CheckboxV> {
    v.map_values(|c: CheckboxState| c@)
}

pub open spec fn selects_view(v: Seq<SelectState>) -> Seq<SelectV> {
    v.map_values(|s: SelectState| s@)
}

impl View for DialogState {
    type V = DialogV;

    open spec fn view(&self) -> DialogV {
        DialogV {
            platform: self.platform@,
            title: opt_view(self.title),
            subtitle: opt_view(self.subtitle),
            message: self.message@,
            message_alignment: self.message_alignment,
            message_position: opt_view(self.message_position),
            title_font: opt_view(self.title_font),
            message_font: opt_view(self.message_font),
            icon: self.icon@,
            banner: match self.banner {
                Some(b) => Some(b@),
                None => None,
            },
            background: match self.background {
                Some(b) => Some(b@),
                None => None,
            },
            button1: self.button1@,
            button2: self.button2@,
            info_button: self.info_button@,
            timer: match self.timer {
                Some(t) => Some(t@),
                None => None,
            },
            list_items: items_view(self.list_items@),
            list_select_enabled: self.list_select_enabled,
            list_style: opt_view(self.list_style),
            text_fields: fields_view(self.text_fields@),
            checkboxes: boxes_view(self.checkboxes@),
            selects: selects_view(self.selects@),
            progress: match self.progress {
                Some(p) => Some(p@),
                None => None,
            },
            info_text: opt_view(self.info_text),
            window: self.window@,
            mini: self.mini,
            style: opt_view(self.style),
            quit_key: self.quit_key@,
        }
    }
}

/// `value` read as a decimal, `fallback` (thousandths) when absent or unreadable.
pub open spec fn decimal_or(value: Option<Seq<char>>, fallback: int) -> int {
    match value {
        Some(v) => match spec_parse_decimal(v) {
            Some(d) => d,
            None => fallback,
        },
        None => fallback,
    }
}

pub open spec fn platform_name(p: Platform) -> Seq<char> {
    match p {
        Platform::MacOs => "macos"@,
        Platform::Windows => "windows"@,
        Platform::Linux => "linux"@,
    }
}

/// Whether the mini layout applies (`--mini` or `--style mini`).
pub open spec fn spec_mini(c: &Config) -> bool {
    spec_present(c, "mini"@) || spec_value(c, "style"@) == Some("mini"@)
}

/// Window width in thousandths: mini forces 540; an explicit `--width`
/// wins unscaled; otherwise 820 scaled by `--small` (0.75) or `--big` (1.25).
pub open spec fn spec_width(c: &Config) -> int {
    if spec_mini(c) {
        540_000
    } else if spec_present(c, "width"@) {
        decimal_or(spec_value(c, "width"@), 820_000)
    } else if spec_present(c, "small"@) {
        615_000
    } else if spec_present(c, "big"@) {
        1_025_000
    } else {
        820_000
    }
}

/// Window height in thousandths: mini forces 128; an explicit `--height`
/// wins unscaled; otherwise 380 scaled by `--small` (0.75) or `--big` (1.25).
pub open spec fn spec_height(c: &Config) -> int {
    if spec_mini(c) {
        128_000
    } else if spec_present(c, "height"@) {
        decimal_or(spec_value(c, "height"@), 380_000)
    } else if spec_present(c, "small"@) {
        285_000
    } else if spec_present(c, "big"@) {
        475_000
    } else {
        380_000
    }
}

/// A title as shown: the table's `default-title` sentinel (what an absent
/// `--title` reads as) is the default title "An Important Message".
pub open spec fn title_text(t: Seq<char>) -> Seq<char> {
    if t == "default-title"@ {
        "An Important Message"@
    } else {
        t
    }
}

pub open spec fn opt_title_text(t: Option<Seq<char>>) -> Option<Seq<char>> {
    match t {
        Some(x) => Some(title_text(x)),
        None => None,
    }
}

fn localized_title(t: String) -> (r: String)
    ensures
        r@ == title_text(t@),
{
    if str_eq(t.as_str(), "default-title") {
        String::from_str("An Important Message")
    } else {
        t
    }
}

/// The banner title: `--bannertitle`, else `--bannertext`, when given.
pub open spec fn spec_banner_title(c: &Config) -> Option<Seq<char>> {
    if spec_present(c, "bannertitle"@) {
        opt_title_text(spec_value(c, "bannertitle"@))
    } else if spec_present(c, "bannertext"@) {
        opt_title_text(spec_value(c, "bannertext"@))
    } else {
        None
    }
}

/// The initial render state for a configuration.
pub open spec fn spec_dialog(c: &Config, platform: Platform) -> DialogV {
    DialogV {
        platform: platform_name(platform),
        title: match spec_value(c, "title"@) {
            Some(t) => if t == "none"@ {
                None
            } else {
                Some(title_text(t))
            },
            None => None,
        },
        subtitle: spec_value(c, "subtitle"@),
        message: or_else(spec_value(c, "message"@), Seq::empty()),
        message_alignment: spec_alignment(or_else(spec_value(c, "messagealignment"@), "left"@)),
        message_position: spec_value(c, "messageposition"@),
        title_font: spec_value(c, "titlefont"@),
        message_font: spec_value(c, "messagefont"@),
        icon: IconV {
            source: or_else(spec_value(c, "icon"@), "default"@),
            size: decimal_or(spec_value(c, "iconsize"@), 150_000),
            alpha: decimal_or(spec_value(c, "iconalpha"@), 1_000),
            alt_text: or_else(spec_value(c, "iconalttext"@), "Dialog Icon"@),
            overlay: spec_value(c, "overlayicon"@),
            hidden: spec_present(c, "hideicon"@),
            render: IconRenderV::Placeholder,
            overlay_render: None,
        },
        banner: match spec_value(c, "bannerimage"@) {
            Some(src) => Some(
                BannerV {
                    source: src,
                    title: spec_banner_title(c),
                    render: IconRenderV::Placeholder,
                },
            ),
            None => None,
        },
        background: match spec_value(c, "background"@) {
            Some(src) => Some(BackgroundV { source: src, render: IconRenderV::Placeholder }),
            None => None,
        },
        button1: ButtonV {
            text: or_else(spec_value(c, "button1text"@), "OK"@),
            visible: true,
            enabled: !spec_present(c, "button1disabled"@),
            action: spec_value(c, "button1action"@),
        },
        button2: ButtonV {
            text: or_else(spec_value(c, "button2text"@), "Cancel"@),
            visible: spec_present(c, "button2"@) || c.cli.model().present("button2text"@),
            enabled: !spec_present(c, "button2disabled"@),
            action: spec_value(c, "button2action"@),
        },
        info_button: ButtonV {
            text: or_else(spec_value(c, "infobuttontext"@), "More Information"@),
            visible: spec_present(c, "infobutton"@) || c.cli.model().present("infobuttontext"@),
            enabled: true,
            action: spec_value(c, "infobuttonaction"@),
        },
        timer: if spec_present(c, "timer"@) {
            Some(
                TimerV {
                    seconds: decimal_or(spec_value(c, "timer"@), 10_000),
                    hide_bar: spec_present(c, "hidetimerbar"@),
                },
            )
        } else {
            None
        },
        list_items: spec_list_items(c),
        list_select_enabled: spec_present(c, "enablelistselect"@),
        list_style: spec_value(c, "liststyle"@),
        text_fields: spec_text_fields(c),
        checkboxes: spec_checkboxes(c),
        selects: spec_selects(c),
        progress: if spec_present(c, "progress"@) {
            Some(
                ProgressV {
                    total: decimal_or(spec_value(c, "progress"@), 100_000),
                    current: None,
                    text: trim(or_else(spec_value(c, "progresstext"@), Seq::empty())),
                    visible: true,
                },
            )
        } else {
            None
        },
        info_text: if c.cli.model().present("infotext"@) {
            Some(or_else(spec_value(c, "infotext"@), Seq::empty()))
        } else {
            None
        },
        window: WindowV {
            width: spec_width(c),
            height: spec_height(c),
            position: spec_value(c, "position"@),
            position_offset: decimal_or(spec_value(c, "positionoffset"@), 16_000),
            ontop: spec_present(c, "ontop"@),
            moveable: spec_present(c, "moveable"@),
            resizable: spec_present(c, "resizable"@),
            appearance: spec_value(c, "appearance"@),
        },
        mini: spec_mini(c),
        style: spec_value(c, "style"@),
        quit_key: or_else(spec_value(c, "quitkey"@), "q"@),
    }
}

/// The value of `name`, or `fallback` when unset.
fn value_or(config: &Config, name: &str, fallback: &str) -> (r: String)
    ensures
        r@ == or_else(spec_value(config, name@), fallback@),
{
    match config.value(name) {
        Some(v) => v,
        None => String::from_str(fallback),
    }
}

/// The value of `name` read as a decimal, `fallback` thousandths otherwise.
fn decimal_value(config: &Config, name: &str, fallback: i64) -> (r: Decimal)
    ensures
        r.value() == decimal_or(spec_value(config, name@), fallback as int),
{
    match config.value(name) {
        Some(v) => {
            let c = chars_of(v.as_str());
            assert(c@.subrange(0, c@.len() as int) =~= v@);
            match parse_decimal(&c, 0, c.len()) {
                Some(d) => d,
                None => Decimal { thousandths: fallback },
            }
        },
        None => Decimal { thousandths: fallback },
    }
}

impl DialogState {
    /// The initial render state for a parsed configuration.
    pub fn from_config(config: &Config, platform: Platform) -> (s: DialogState)
        ensures
            s@ == spec_dialog(config, platform),
    {
        let title = match config.value("title") {
            Some(t) => if str_eq(t.as_str(), "none") {
                None
            } else {
                Some(localized_title(t))
            },
            None => None,
        };
        let style = config.value("style");
        let mini = config.present("mini") || match &style {
            Some(st) => str_eq(st.as_str(), "mini"),
            None => false,
        };
        let width = if mini {
            Decimal { thousandths: 540_000 }
        } else if config.present("width") {
            decimal_value(config, "width", 820_000)
        } else if config.present("small") {
            Decimal { thousandths: 615_000 }
        } else if config.present("big") {
            Decimal { thousandths: 1_025_000 }
        } else {
            Decimal { thousandths: 820_000 }
        };
        let height = if mini {
            Decimal { thousandths: 128_000 }
        } else if config.present("height") {
            decimal_value(config, "height", 380_000)
        } else if config.present("small") {
            Decimal { thousandths: 285_000 }
        } else if config.present("big") {
            Decimal { thousandths: 475_000 }
        } else {
            Decimal { thousandths: 380_000 }
        };
        let button2_visible = config.present("button2") || config.cli.present("button2text");
        let info_visible = config.present("infobutton") || config.cli.present("infobuttontext");
        let timer = if config.present("timer") {
            Some(
                TimerState {
                    seconds: decimal_value(config, "timer", 10_000),
                    hide_bar: config.present("hidetimerbar"),
                },
            )
        } else {
            None
        };
        let banner_title = if config.present("bannertitle") {
            match config.value("bannertitle") {
                Some(t) => Some(localized_title(t)),
                None => None,
            }
        } else if config.present("bannertext") {
            match config.value("bannertext") {
                Some(t) => Some(localized_title(t)),
                None => None,
            }
        } else {
            None
        };
        let banner = match config.value("bannerimage") {
            Some(source) => Some(
                BannerState { source, title: banner_title, render: IconRender::Placeholder },
            ),
            None => None,
        };
        let background = match config.value("background") {
            Some(source) => Some(BackgroundState { source, render: IconRender::Placeholder }),
            None => None,
        };
        let progress = if config.present("progress") {
            let raw = match config.value("progresstext") {
                Some(t) => t,
                None => String::new(),
            };
            let rc = chars_of(raw.as_str());
            assert(rc@.subrange(0, rc@.len() as int) =~= raw@);
            let (a, b) = trim_bounds(&rc, 0, rc.len());
            Some(
                ProgressState {
                    total: decimal_value(config, "progress", 100_000),
                    current: None,
                    text: string_of(&rc, a, b),
                    visible: true,
                },
            )
        } else {
            None
        };
        let info_text = if config.cli.present("infotext") {
            Some(
                match config.value("infotext") {
                    Some(t) => t,
                    None => String::new(),
                },
            )
        } else {
            None
        };
        let platform_text = match platform {
            Platform::MacOs => String::from_str("macos"),
            Platform::Windows => String::from_str("windows"),
            Platform::Linux => String::from_str("linux"),
        };
        let alignment_text = value_or(config, "messagealignment", "left");
        DialogState {
            platform: platform_text,
            title,
            subtitle: config.value("subtitle"),
            message: match config.value("message") {
                Some(m) => m,
                None => String::new(),
            },
            message_alignment: Alignment::parse_str(alignment_text.as_str()),
            message_position: config.value("messageposition"),
            title_font: config.value("titlefont"),
            message_font: config.value("messagefont"),
            icon: IconState {
                source: value_or(config, "icon", "default"),
                size: decimal_value(config, "iconsize", 150_000),
                alpha: decimal_value(config, "iconalpha", 1_000),
                alt_text: value_or(config, "iconalttext", "Dialog Icon"),
                overlay: config.value("overlayicon"),
                hidden: config.present("hideicon"),
                render: IconRender::Placeholder,
                overlay_render: None,
            },
            banner,
            background,
            button1: ButtonState {
                text: value_or(config, "button1text", "OK"),
                visible: true,
                enabled: !config.present("button1disabled"),
                action: config.value("button1action"),
            },
            button2: ButtonState {
                text: value_or(config, "button2text", "Cancel"),
                visible: button2_visible,
                enabled: !config.present("button2disabled"),
                action: config.value("button2action"),
            },
            info_button: ButtonState {
                text: value_or(config, "infobuttontext", "More Information"),
                visible: info_visible,
                enabled: true,
                action: config.value("infobuttonaction"),
            },
            timer,
            list_items: parse_list_items(config),
            list_select_enabled: config.present("enablelistselect"),
            list_style: config.value("liststyle"),
            text_fields: parse_text_fields(config),
            checkboxes: parse_checkboxes(config),
            selects: parse_selects(config),
            progress,
            info_text,
            window: WindowState {
                width,
                height,
                position: config.value("position"),
                position_offset: decimal_value(config, "positionoffset", 16_000),
                ontop: config.present("ontop"),
                moveable: config.present("moveable"),
                resizable: config.present("resizable"),
                appearance: config.value("appearance"),
            },
            mini,
            style,
            quit_key: value_or(config, "quitkey", "q"),
        }
    }
}

} // verus!
