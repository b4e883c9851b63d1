//! Icon source resolution. Classifies `--icon`/`--overlayicon`/
//! `--bannerimage` values and decides what the renderer draws for each:
//!   - image files and `https://` URLs  → base64 `data:` URL (`IconRender::Image`)
//!   - `SF=<name>` and builtin keywords  → a Fluent icon-font glyph (`Glyph`)
//!   - `none`                            → nothing; the icon area reflows
//!
//! Every `SF=` name maps through a curated table to a glyph in the bundled
//! Fluent System Icons font. Reading files and downloading URLs is left to
//! the caller; this module decides what to fetch and what the bytes become.

use crate::suboptions::{assoc_last, parse_spec, spec_parse_spec, SubModel};
use crate::text::{
    chars_of, ends_with, lower_range, lower_text, push_char, push_text, range_ends_with, range_is,
    range_starts_with, starts_with, str_eq, string_of, to_lowercase, trim, trim_bounds,
    trim_start, trim_start_from,
};
use base64::Engine;
use vstd::prelude::*;
use vstd::string::*;

verus! {

broadcast use vstd::string::group_string_axioms;

/// What the renderer should draw for an icon slot.
#[derive(Clone, Debug, PartialEq, Eq)]
pub enum IconRender {
    /// Hide the icon area and reflow content (`--icon none`).
    Hidden,
    /// A resolved raster/vector image as a `data:` URL.
    Image { url: String },
    /// A Fluent icon-font glyph: `glyph` is the character, `color` an
    /// optional CSS colour (SF `colour=` modifier or builtin tint).
    Glyph { glyph: String, color: Option<String> },
    /// Recognised but not renderable here (unmapped SF symbol, deferred
    /// app-icon extraction): the renderer draws its generic placeholder.
    Placeholder,
}

/// [`IconRender`] as plain values.
pub enum IconRenderV {
    Hidden,
    Image { url: Seq<char> },
    Glyph { glyph: Seq<char>, color: Option<Seq<char>> },
    Placeholder,
}

pub open spec fn opt_view(o: Option<String>) -> Option<Seq<char>> {
    match o {
        Some(s) => Some(s@),
        None => None,
    }
}

impl View for IconRender {
    type V = IconRenderV;

    open spec fn view(&self) -> IconRenderV {
        match self {
            IconRender::Hidden => IconRenderV::Hidden,
            IconRender::Image { url } => IconRenderV::Image { url: url@ },
            IconRender::Glyph { glyph, color } => IconRenderV::Glyph {
                glyph: glyph@,
                color: opt_view(*color),
            },
            IconRender::Placeholder => IconRenderV::Placeholder,
        }
    }
}

/// Classified icon value, before any I/O.
#[derive(Debug, PartialEq)]
pub enum IconSource {
    /// `none` / empty → hidden.
    Hidden,
    /// `default` / `warning` / `caution` / `info` builtin keyword.
    Builtin(String),
    /// `SF=<name>[,colour=..,palette=..]`.
    Sf { name: String, color: Option<String> },
    /// `http(s)://…`.
    Url(String),
    /// `.app` / `.exe` / `.lnk`: icon extraction is not implemented.
    AppBundle(String),
    /// A local image file path.
    File(String),
}

pub enum IconSourceV {
    Hidden,
    Builtin(Seq<char>),
    Sf { name: Seq<char>, color: Option<Seq<char>> },
    Url(Seq<char>),
    AppBundle(Seq<char>),
    File(Seq<char>),
}

impl View for IconSource {
    type V = IconSourceV;

    open spec fn view(&self) -> IconSourceV {
        match self {
            IconSource::Hidden => IconSourceV::Hidden,
            IconSource::Builtin(k) => IconSourceV::Builtin(k@),
            IconSource::Sf { name, color } => IconSourceV::Sf { name: name@, color: opt_view(*color) },
            IconSource::Url(u) => IconSourceV::Url(u@),
            IconSource::AppBundle(p) => IconSourceV::AppBundle(p@),
            IconSource::File(p) => IconSourceV::File(p@),
        }
    }
}

/// The colour of an `SF=` spec: `colour=`, else `color=`, else `palette=`.
pub open spec fn sf_color(m: SubModel) -> Option<Seq<char>> {
    match assoc_last(m.values, "colour"@) {
        Some(c) => Some(c),
        None => match assoc_last(m.values, "color"@) {
            Some(c) => Some(c),
            None => assoc_last(m.values, "palette"@),
        },
    }
}

pub open spec fn is_builtin_keyword(k: Seq<char>) -> bool {
    k == "default"@ || k == "warning"@ || k == "caution"@ || k == "info"@
}

/// What an icon value names. It is trimmed first; keywords are matched
/// case-insensitively.
pub open spec fn spec_classify(source: Seq<char>) -> IconSourceV {
    let s = trim(source);
    let lower = lower_text(s);
    if s.len() == 0 {
        IconSourceV::Hidden
    } else if starts_with(s, "SF="@) {
        let m = spec_parse_spec(s.subrange(3, s.len() as int));
        IconSourceV::Sf { name: lower_text(m.title), color: sf_color(m) }
    } else if lower == "none"@ {
        IconSourceV::Hidden
    } else if is_builtin_keyword(lower) {
        IconSourceV::Builtin(lower)
    } else if starts_with(s, "https://"@) || starts_with(s, "http://"@) {
        IconSourceV::Url(s)
    } else if ends_with(lower, ".app"@) || ends_with(lower, ".exe"@) || ends_with(lower, ".lnk"@) {
        IconSourceV::AppBundle(s)
    } else {
        IconSourceV::File(s)
    }
}

fn string_from(s: &str) -> (r: String)
    ensures
        r@ == s@,
{
    String::from_str(s)
}

fn first_given(sub: &crate::suboptions::SubOptions) -> (r: Option<String>)
    ensures
        opt_view(r) == sf_color(sub.model()),
{
    match sub.get("colour") {
        Some(c) => Some(string_from(c)),
        None => match sub.get("color") {
            Some(c) => Some(string_from(c)),
            None => match sub.get("palette") {
                Some(c) => Some(string_from(c)),
                None => None,
            },
        },
    }
}

/// Classify an icon value.
pub fn classify(source: &str) -> (r: IconSource)
    ensures
        r@ == spec_classify(source@),
{
    let v = chars_of(source);
    let (a, b) = trim_bounds(&v, 0, v.len());
    assert(v@.subrange(0, v@.len() as int) =~= v@);
    let ghost s = v@.subrange(a as int, b as int);
    if a == b {
        return IconSource::Hidden;
    }
    if range_starts_with(&v, a, b, "SF=") {
        proof {
            reveal_strlit("SF=");
        }
        let spec_text = string_of(&v, a + 3, b);
        assert(s.subrange(3, s.len() as int) =~= v@.subrange(a + 3, b as int));
        let parsed = parse_spec(spec_text.as_str());
        let color = first_given(&parsed);
        let name = to_lowercase(parsed.title.as_str());
        return IconSource::Sf { name, color };
    }
    let lower = lower_range(&v, a, b);
    let n = lower.len();
    assert(lower@.subrange(0, n as int) =~= lower@);
    if range_is(&lower, 0, n, "none") {
        return IconSource::Hidden;
    }
    if range_is(&lower, 0, n, "default") || range_is(&lower, 0, n, "warning") || range_is(
        &lower,
        0,
        n,
        "caution",
    ) || range_is(&lower, 0, n, "info") {
        let mut kw = String::new();
        let mut i: usize = 0;
        while i < n
            invariant
                i <= n,
                n == lower.len(),
                kw@ == lower@.subrange(0, i as int),
            decreases n - i,
        {
            push_char(&mut kw, lower[i]);
            assert(lower@.subrange(0, i + 1) =~= lower@.subrange(0, i as int).push(lower@[i as int]));
            i = i + 1;
        }
        return IconSource::Builtin(kw);
    }
    let text = string_of(&v, a, b);
    if range_starts_with(&v, a, b, "https://") || range_starts_with(&v, a, b, "http://") {
        return IconSource::Url(text);
    }
    if range_ends_with(&lower, 0, n, ".app") || range_ends_with(&lower, 0, n, ".exe")
        || range_ends_with(&lower, 0, n, ".lnk") {
        return IconSource::AppBundle(text);
    }
    IconSource::File(text)
}

// ---- glyphs ----

/// Fluent codepoint of the warning triangle.
pub const WARNING: u32 = 62745;

/// Fluent codepoint of the info circle.
pub const INFO: u32 = 59998;

/// A Unicode scalar value: what `char::from_u32` accepts.
pub open spec fn is_scalar(cp: u32) -> bool {
    cp <= 0x10FFFF && !(0xD800 <= cp <= 0xDFFF)
}

/// `char::from_u32`. Claimed, as its documentation says: the character with
/// that code point when the code point is a Unicode scalar value (at most
/// `0x10FFFF`, not a surrogate), else `None`.
#[verifier::external_body]
fn char_from(cp: u32) -> (r: Option<char>)
    ensures
        r == (if is_scalar(cp) { Some(cp as char) } else { None }),
{
    char::from_u32(cp)
}

/// The text of a glyph: its one character, or empty for a code point that
/// is no character.
pub open spec fn glyph_text(cp: u32) -> Seq<char> {
    if is_scalar(cp) {
        seq![cp as char]
    } else {
        Seq::empty()
    }
}

pub open spec fn spec_glyph(cp: u32, color: Option<Seq<char>>) -> IconRenderV {
    IconRenderV::Glyph { glyph: glyph_text(cp), color }
}

/// A Fluent glyph render.
pub fn glyph(cp: u32, color: Option<String>) -> (r: IconRender)
    ensures
        r@ == spec_glyph(cp, opt_view(color)),
{
    let mut text = String::new();
    match char_from(cp) {
        Some(c) => {
            push_char(&mut text, c);
            assert(text@ =~= seq![c]);
        },
        None => {},
    }
    IconRender::Glyph { glyph: text, color }
}

/// Builtin keyword imagery, as tinted Fluent glyphs; `default` is a neutral,
/// theme-tinted info glyph. Anything else is the placeholder.
pub open spec fn spec_builtin(keyword: Seq<char>) -> IconRenderV {
    if keyword == "warning"@ {
        spec_glyph(WARNING, Some("#ff9500"@))
    } else if keyword == "caution"@ {
        spec_glyph(WARNING, Some("#ffcc00"@))
    } else if keyword == "info"@ {
        spec_glyph(INFO, Some("#0a84ff"@))
    } else if keyword == "default"@ {
        spec_glyph(INFO, None)
    } else {
        IconRenderV::Placeholder
    }
}

/// The render of a builtin keyword.
pub fn builtin(keyword: &str) -> (r: IconRender)
    ensures
        r@ == spec_builtin(keyword@),
{
    if str_eq(keyword, "warning") {
        glyph(WARNING, Some(string_from("#ff9500")))
    } else if str_eq(keyword, "caution") {
        glyph(WARNING, Some(string_from("#ffcc00")))
    } else if str_eq(keyword, "info") {
        glyph(INFO, Some(string_from("#0a84ff")))
    } else if str_eq(keyword, "default") {
        glyph(INFO, None)
    } else {
        IconRender::Placeholder
    }
}

// ---- the SF symbol table ----

/// Number of curated SF symbol names.
pub const SF_COUNT: usize = 68;

/// Curated SF-symbol name → (regular, filled) Fluent codepoints, covering the
/// symbols common in community swiftDialog scripts.
pub open spec fn sf_entry(i: usize) -> (&'static str, u32, u32) {
    if i < 34 {
        sf_entry_part0(i)
    } else {
        sf_entry_part1(i)
    }
}

/// Entries 0 to 33.
pub open spec fn sf_entry_part0(i: usize) -> (&'static str, u32, u32) {
    match i {
        0 => ("gear", 61397, 61396),
        1 => ("gearshape", 61397, 61396),
        2 => ("gearshape.2", 61397, 61396),
        3 => ("checkmark", 58460, 58459),
        4 => ("checkmark.circle", 58462, 58461),
        5 => ("checkmark.seal", 58462, 58461),
        6 => ("checkmark.shield", 61445, 61444),
        7 => ("shield.checkmark", 61445, 61444),
        8 => ("shield", 61437, 61436),
        9 => ("lock.shield", 61437, 61436),
        10 => ("xmark", 59083, 59082),
        11 => ("xmark.circle", 59085, 59084),
        12 => ("exclamationmark.triangle", 62745, 62744),
        13 => ("exclamationmark.circle", 59501, 59500),
        14 => ("info.circle", 59998, 59997),
        15 => ("questionmark.circle", 61139, 61138),
        16 => ("person", 60799, 60798),
        17 => ("person.2", 60739, 60738),
        18 => ("person.3", 60739, 60738),
        19 => ("lock", 60284, 60283),
        20 => ("wifi", 62815, 62814),
        21 => ("desktopcomputer", 59007, 59006),
        22 => ("display", 59007, 59006),
        23 => ("laptopcomputer", 60059, 60058),
        24 => ("globe", 59767, 59766),
        25 => ("network", 59767, 59766),
        26 => ("arrow.down.circle", 57563, 57562),
        27 => ("arrow.down", 57563, 57562),
        28 => ("square.and.arrow.down", 57563, 57562),
        29 => ("arrow.clockwise", 57533, 57532),
        30 => ("arrow.triangle.2.circlepath", 57711, 57710),
        31 => ("trash", 58983, 58982),
        32 => ("folder", 59615, 59614),
        33 => ("doc", 59105, 59104),
        _ => ("", 0, 0),
    }
}

/// Entries 34 to 67.
pub open spec fn sf_entry_part1(i: usize) -> (&'static str, u32, u32) {
    match i {
        34 => ("doc.text", 59105, 59104),
        35 => ("bell", 57387, 57386),
        36 => ("envelope", 60300, 60299),
        37 => ("house", 59916, 59915),
        38 => ("magnifyingglass", 61341, 61340),
        39 => ("bolt", 59575, 59574),
        40 => ("battery.100", 57821, 57820),
        41 => ("key", 60029, 60028),
        42 => ("hourglass", 59938, 59937),
        43 => ("clock", 58628, 58627),
        44 => ("calendar", 58156, 58155),
        45 => ("star", 61725, 61724),
        46 => ("heart", 59881, 59880),
        47 => ("cloud", 58654, 58653),
        48 => ("printer", 61095, 61094),
        49 => ("terminal", 58698, 58697),
        50 => ("wrench", 62899, 62898),
        51 => ("wrench.and.screwdriver", 62899, 62898),
        52 => ("camera", 58304, 58303),
        53 => ("mic", 60430, 60429),
        54 => ("speaker.wave.2", 61643, 61642),
        55 => ("power", 61065, 61064),
        56 => ("server.rack", 61391, 61390),
        57 => ("externaldrive", 59849, 59848),
        58 => ("internaldrive", 59849, 59848),
        59 => ("building.2", 58100, 58099),
        60 => ("iphone", 60923, 60922),
        61 => ("ipad", 62007, 62006),
        62 => ("app", 57461, 57460),
        63 => ("square.grid.2x2", 57461, 57460),
        64 => ("shippingbox", 58020, 58019),
        65 => ("list.bullet", 62152, 62151),
        66 => ("square.and.arrow.up", 61279, 61278),
        67 => ("circle", 58512, 58511),
        _ => ("", 0, 0),
    }
}

fn sf_row_part0(i: usize) -> (r: (&'static str, u32, u32))
    ensures
        r == sf_entry_part0(i),
{
    match i {
        0 => ("gear", 61397, 61396),
        1 => ("gearshape", 61397, 61396),
        2 => ("gearshape.2", 61397, 61396),
        3 => ("checkmark", 58460, 58459),
        4 => ("checkmark.circle", 58462, 58461),
        5 => ("checkmark.seal", 58462, 58461),
        6 => ("checkmark.shield", 61445, 61444),
        7 => ("shield.checkmark", 61445, 61444),
        8 => ("shield", 61437, 61436),
        9 => ("lock.shield", 61437, 61436),
        10 => ("xmark", 59083, 59082),
        11 => ("xmark.circle", 59085, 59084),
        12 => ("exclamationmark.triangle", 62745, 62744),
        13 => ("exclamationmark.circle", 59501, 59500),
        14 => ("info.circle", 59998, 59997),
        15 => ("questionmark.circle", 61139, 61138),
        16 => ("person", 60799, 60798),
        17 => ("person.2", 60739, 60738),
        18 => ("person.3", 60739, 60738),
        19 => ("lock", 60284, 60283),
        20 => ("wifi", 62815, 62814),
        21 => ("desktopcomputer", 59007, 59006),
        22 => ("display", 59007, 59006),
        23 => ("laptopcomputer", 60059, 60058),
        24 => ("globe", 59767, 59766),
        25 => ("network", 59767, 59766),
        26 => ("arrow.down.circle", 57563, 57562),
        27 => ("arrow.down", 57563, 57562),
        28 => ("square.and.arrow.down", 57563, 57562),
        29 => ("arrow.clockwise", 57533, 57532),
        30 => ("arrow.triangle.2.circlepath", 57711, 57710),
        31 => ("trash", 58983, 58982),
        32 => ("folder", 59615, 59614),
        33 => ("doc", 59105, 59104),
        _ => ("", 0, 0),
    }
}

fn sf_row_part1(i: usize) -> (r: (&'static str, u32, u32))
    ensures
        r == sf_entry_part1(i),
{
    match i {
        34 => ("doc.text", 59105, 59104),
        35 => ("bell", 57387, 57386),
        36 => ("envelope", 60300, 60299),
        37 => ("house", 59916, 59915),
        38 => ("magnifyingglass", 61341, 61340),
        39 => ("bolt", 59575, 59574),
        40 => ("battery.100", 57821, 57820),
        41 => ("key", 60029, 60028),
        42 => ("hourglass", 59938, 59937),
        43 => ("clock", 58628, 58627),
        44 => ("calendar", 58156, 58155),
        45 => ("star", 61725, 61724),
        46 => ("heart", 59881, 59880),
        47 => ("cloud", 58654, 58653),
        48 => ("printer", 61095, 61094),
        49 => ("terminal", 58698, 58697),
        50 => ("wrench", 62899, 62898),
        51 => ("wrench.and.screwdriver", 62899, 62898),
        52 => ("camera", 58304, 58303),
        53 => ("mic", 60430, 60429),
        54 => ("speaker.wave.2", 61643, 61642),
        55 => ("power", 61065, 61064),
        56 => ("server.rack", 61391, 61390),
        57 => ("externaldrive", 59849, 59848),
        58 => ("internaldrive", 59849, 59848),
        59 => ("building.2", 58100, 58099),
        60 => ("iphone", 60923, 60922),
        61 => ("ipad", 62007, 62006),
        62 => ("app", 57461, 57460),
        63 => ("square.grid.2x2", 57461, 57460),
        64 => ("shippingbox", 58020, 58019),
        65 => ("list.bullet", 62152, 62151),
        66 => ("square.and.arrow.up", 61279, 61278),
        67 => ("circle", 58512, 58511),
        _ => ("", 0, 0),
    }
}

fn sf_row(i: usize) -> (r: (&'static str, u32, u32))
    ensures
        r == sf_entry(i),
{
    if i < 34 {
        sf_row_part0(i)
    } else {
        sf_row_part1(i)
    }
}

/// The (regular, filled) codepoints of the first table entry named `base`,
/// looking from entry `i` on.
pub open spec fn sf_from(base: Seq<char>, i: int) -> Option<(u32, u32)>
    decreases SF_COUNT - i,
{
    if i < 0 || i >= SF_COUNT {
        None
    } else if sf_entry(i as usize).0@ == base {
        Some((sf_entry(i as usize).1, sf_entry(i as usize).2))
    } else {
        sf_from(base, i + 1)
    }
}

/// The codepoint for an SF name; a trailing `.fill` selects the filled
/// variant. `None` for names outside the table.
pub open spec fn spec_sf_glyph(name: Seq<char>) -> Option<u32> {
    if ends_with(name, ".fill"@) {
        match sf_from(name.subrange(0, name.len() - 5), 0) {
            Some((_, filled)) => Some(filled),
            None => None,
        }
    } else {
        match sf_from(name, 0) {
            Some((regular, _)) => Some(regular),
            None => None,
        }
    }
}

/// Look up a curated SF symbol name.
pub fn sf_glyph(name: &str) -> (r: Option<u32>)
    ensures
        r == spec_sf_glyph(name@),
{
    let v = chars_of(name);
    let n = v.len();
    let filled = range_ends_with(&v, 0, n, ".fill");
    assert(v@.subrange(0, n as int) =~= v@);
    proof {
        reveal_strlit(".fill");
    }
    let base = if filled {
        string_of(&v, 0, n - 5)
    } else {
        string_of(&v, 0, n)
    };
    let mut i: usize = 0;
    while i < SF_COUNT
        invariant
            i <= SF_COUNT,
            sf_from(base@, 0) == sf_from(base@, i as int),
            filled == ends_with(name@, ".fill"@),
            filled ==> name@.len() >= 5 && base@ == name@.subrange(0, name@.len() - 5),
            !filled ==> base@ == name@,
        decreases SF_COUNT - i,
    {
        let row = sf_row(i);
        assert(sf_entry(i as int as usize) == row);
        if str_eq(row.0, base.as_str()) {
            assert(sf_from(base@, i as int) == Some((row.1, row.2)));

            return if filled {
                Some(row.2)
            } else {
                Some(row.1)
            };
        }
        i = i + 1;
    }
    None
}

// ---- images ----

pub open spec fn bytes_start(bytes: Seq<u8>, magic: Seq<u8>) -> bool {
    magic.len() <= bytes.len() && bytes.subrange(0, magic.len() as int) == magic
}

/// `str::from_utf8`: the text the bytes encode in UTF-8, if they are valid UTF-8.
pub uninterp spec fn utf8_text(bytes: Seq<u8>) -> Option<Seq<char>>;

/// Bytes below 128 each: ASCII.
pub open spec fn is_ascii_bytes(bytes: Seq<u8>) -> bool {
    forall|i: int| 0 <= i < bytes.len() ==> #[trigger] bytes[i] < 128
}

/// `std::str::from_utf8`. Claimed: it returns the decoded text exactly when
/// `utf8_text` of the bytes is some text, a function of the bytes alone, and
/// ASCII bytes decode to the characters of the same codes (ASCII is valid
/// UTF-8, one byte per character); other decoding is not stated here.
#[verifier::external_body]
fn decode_utf8(bytes: &[u8]) -> (r: Option<String>)
    ensures
        opt_view(r) == utf8_text(bytes@),
        is_ascii_bytes(bytes@) ==> (r matches Some(s) && s@.len() == bytes@.len() && forall|i: int|
            0 <= i < bytes@.len() ==> #[trigger] s@[i] == bytes@[i] as char),
{
    match std::str::from_utf8(bytes) {
        Ok(s) => Some(s.to_string()),
        Err(_) => None,
    }
}

/// The image MIME type a webview can draw, from magic bytes, else from an
/// `.svg` extension or leading SVG/XML markup in the first 256 bytes. `None`
/// for anything else, Apple ICNS included.
pub open spec fn spec_image_mime(path: Seq<char>, bytes: Seq<u8>) -> Option<Seq<char>> {
    if bytes_start(bytes, seq![0x89u8, 0x50u8, 0x4Eu8, 0x47u8, 0x0Du8, 0x0Au8, 0x1Au8, 0x0Au8]) {
        Some("image/png"@)
    } else if bytes_start(bytes, seq![0xFFu8, 0xD8u8, 0xFFu8]) {
        Some("image/jpeg"@)
    } else if bytes_start(bytes, seq![0x47u8, 0x49u8, 0x46u8, 0x38u8]) {
        Some("image/gif"@)
    } else if bytes.len() >= 12 && bytes_start(bytes, seq![0x52u8, 0x49u8, 0x46u8, 0x46u8])
        && bytes.subrange(8, 12) == seq![0x57u8, 0x45u8, 0x42u8, 0x50u8] {
        Some("image/webp"@)
    } else if bytes_start(bytes, seq![0x42u8, 0x4Du8]) {
        Some("image/bmp"@)
    } else if bytes_start(bytes, seq![0x00u8, 0x00u8, 0x01u8, 0x00u8]) {
        Some("image/x-icon"@)
    } else if bytes_start(bytes, seq![0x69u8, 0x63u8, 0x6Eu8, 0x73u8]) {
        None
    } else if ends_with(lower_text(path), ".svg"@) {
        Some("image/svg+xml"@)
    } else {
        let head = bytes.subrange(0, if bytes.len() < 256 { bytes.len() as int } else { 256 });
        match utf8_text(head) {
            Some(t) => if svg_markup(t) {
                Some("image/svg+xml"@)
            } else {
                None
            },
            None => None,
        }
    }
}

/// Text that opens (after leading whitespace) with an SVG or XML tag.
pub open spec fn svg_markup(t: Seq<char>) -> bool {
    starts_with(trim_start(t), "<svg"@) || starts_with(trim_start(t), "<?xml"@)
}

/// Whether decoded text is SVG markup.
pub fn looks_like_svg(text: &str) -> (r: bool)
    ensures
        r == svg_markup(text@),
{
    let tv = chars_of(text);
    let n = tv.len();
    let start = trim_start_from(&tv, 0, n);
    assert(tv@.subrange(0, n as int) =~= tv@);
    range_starts_with(&tv, start, n, "<svg") || range_starts_with(&tv, start, n, "<?xml")
}

fn has_prefix(bytes: &[u8], magic: &[u8]) -> (r: bool)
    ensures
        r == bytes_start(bytes@, magic@),
{
    if magic.len() > bytes.len() {
        return false;
    }
    let mut i: usize = 0;
    while i < magic.len()
        invariant
            i <= magic.len() <= bytes.len(),
            forall|k: int| 0 <= k < i ==> bytes@[k] == magic@[k],
        decreases magic.len() - i,
    {
        if bytes[i] != magic[i] {
            assert(bytes@.subrange(0, magic@.len() as int)[i as int] != magic@[i as int]);
            return false;
        }
        i = i + 1;
    }
    assert(bytes@.subrange(0, magic@.len() as int) =~= magic@);
    true
}

/// Detect a webview-renderable image MIME type.
pub fn image_mime(path: &str, bytes: &[u8]) -> (r: Option<&'static str>)
    ensures
        match r {
            Some(m) => spec_image_mime(path@, bytes@) == Some(m@),
            None => spec_image_mime(path@, bytes@) is None,
        },
{
    let png: [u8; 8] = [0x89u8, 0x50u8, 0x4Eu8, 0x47u8, 0x0Du8, 0x0Au8, 0x1Au8, 0x0Au8];
    assert(png@ =~= seq![0x89u8, 0x50u8, 0x4Eu8, 0x47u8, 0x0Du8, 0x0Au8, 0x1Au8, 0x0Au8]);
    if has_prefix(bytes, &png) {
        return Some("image/png");
    }
    let jpeg: [u8; 3] = [0xFFu8, 0xD8u8, 0xFFu8];
    assert(jpeg@ =~= seq![0xFFu8, 0xD8u8, 0xFFu8]);
    if has_prefix(bytes, &jpeg) {
        return Some("image/jpeg");
    }
    let gif: [u8; 4] = [0x47u8, 0x49u8, 0x46u8, 0x38u8];
    assert(gif@ =~= seq![0x47u8, 0x49u8, 0x46u8, 0x38u8]);
    if has_prefix(bytes, &gif) {
        return Some("image/gif");
    }
    let riff: [u8; 4] = [0x52u8, 0x49u8, 0x46u8, 0x46u8];
    assert(riff@ =~= seq![0x52u8, 0x49u8, 0x46u8, 0x46u8]);
    if bytes.len() >= 12 && has_prefix(bytes, &riff) && bytes[8] == 0x57u8 && bytes[9] == 0x45u8
        && bytes[10] == 0x42u8 && bytes[11] == 0x50u8 {
        assert(bytes@.subrange(8, 12) =~= seq![0x57u8, 0x45u8, 0x42u8, 0x50u8]);
        return Some("image/webp");
    }
    if bytes.len() >= 12 && has_prefix(bytes, &riff) {
        assert(bytes@.subrange(8, 12)[0] == bytes@[8]);
        assert(bytes@.subrange(8, 12)[1] == bytes@[9]);
        assert(bytes@.subrange(8, 12)[2] == bytes@[10]);
        assert(bytes@.subrange(8, 12)[3] == bytes@[11]);
    }
    let bmp: [u8; 2] = [0x42u8, 0x4Du8];
    assert(bmp@ =~= seq![0x42u8, 0x4Du8]);
    if has_prefix(bytes, &bmp) {
        return Some("image/bmp");
    }
    let ico: [u8; 4] = [0x00u8, 0x00u8, 0x01u8, 0x00u8];
    assert(ico@ =~= seq![0x00u8, 0x00u8, 0x01u8, 0x00u8]);
    if has_prefix(bytes, &ico) {
        return Some("image/x-icon");
    }
    let icns: [u8; 4] = [0x69u8, 0x63u8, 0x6Eu8, 0x73u8];
    assert(icns@ =~= seq![0x69u8, 0x63u8, 0x6Eu8, 0x73u8]);
    if has_prefix(bytes, &icns) {
        return None;
    }
    let pv = chars_of(path);
    let lower = lower_range(&pv, 0, pv.len());
    assert(pv@.subrange(0, pv@.len() as int) =~= pv@);
    assert(lower@.subrange(0, lower@.len() as int) =~= lower@);
    if range_ends_with(&lower, 0, lower.len(), ".svg") {
        return Some("image/svg+xml");
    }
    let cut: usize = if bytes.len() < 256 {
        bytes.len()
    } else {
        256
    };
    let mut head: Vec<u8> = Vec::new();
    let mut i: usize = 0;
    while i < cut
        invariant
            i <= cut <= bytes.len(),
            head@ == bytes@.subrange(0, i as int),
        decreases cut - i,
    {
        head.push(bytes[i]);
        assert(bytes@.subrange(0, i + 1) =~= bytes@.subrange(0, i as int).push(bytes@[i as int]));
        i = i + 1;
    }
    match decode_utf8(head.as_slice()) {
        Some(text) => if looks_like_svg(text.as_str()) {
            Some("image/svg+xml")
        } else {
            None
        },
        None => None,
    }
}

/// The RFC 4648 standard alphabet: `A`–`Z`, `a`–`z`, `0`–`9`, `+`, `/`.
pub open spec fn b64_digit(v: int) -> char {
    if v < 26 {
        ('A' as int + v) as char
    } else if v < 52 {
        ('a' as int + (v - 26)) as char
    } else if v < 62 {
        ('0' as int + (v - 52)) as char
    } else if v == 62 {
        '+'
    } else {
        '/'
    }
}

/// Standard base64 (RFC 4648, with `=` padding): each group of three bytes
/// becomes four digits of six bits; a final group of one or two bytes is
/// padded with `=` to four characters.
pub open spec fn base64_standard(bytes: Seq<u8>) -> Seq<char>
    decreases bytes.len(),
{
    if bytes.len() == 0 {
        Seq::empty()
    } else if bytes.len() == 1 {
        let b0 = bytes[0] as int;
        seq![b64_digit(b0 / 4), b64_digit((b0 % 4) * 16), '=', '=']
    } else if bytes.len() == 2 {
        let b0 = bytes[0] as int;
        let b1 = bytes[1] as int;
        seq![b64_digit(b0 / 4), b64_digit((b0 % 4) * 16 + b1 / 16), b64_digit((b1 % 16) * 4), '=']
    } else {
        let b0 = bytes[0] as int;
        let b1 = bytes[1] as int;
        let b2 = bytes[2] as int;
        seq![
            b64_digit(b0 / 4),
            b64_digit((b0 % 4) * 16 + b1 / 16),
            b64_digit((b1 % 16) * 4 + b2 / 64),
            b64_digit(b2 % 64),
        ] + base64_standard(bytes.subrange(3, bytes.len() as int))
    }
}

/// `base64::engine::general_purpose::STANDARD.encode`. Claimed, as the
/// crate documents for its standard engine: the RFC 4648 standard encoding
/// with padding, `base64_standard` of the bytes.
#[verifier::external_body]
fn encode_base64(bytes: &[u8]) -> (r: String)
    ensures
        r@ == base64_standard(bytes@),
{
    base64::engine::general_purpose::STANDARD.encode(bytes)
}

/// An image as a `data:` URL; a format no webview draws degrades to the
/// default icon.
pub open spec fn spec_image_data_url(path_or_url: Seq<char>, bytes: Seq<u8>) -> IconRenderV {
    match spec_image_mime(path_or_url, bytes) {
        Some(mime) => IconRenderV::Image { url: "data:"@ + mime + ";base64,"@ + base64_standard(bytes) },
        None => spec_builtin("default"@),
    }
}

/// The render of fetched image bytes.
pub fn image_data_url(path_or_url: &str, bytes: &[u8]) -> (r: IconRender)
    ensures
        r@ == spec_image_data_url(path_or_url@, bytes@),
{
    match image_mime(path_or_url, bytes) {
        Some(mime) => {
            let mut url = String::new();
            push_text(&mut url, "data:");
            push_text(&mut url, mime);
            push_text(&mut url, ";base64,");
            let encoded = encode_base64(bytes);
            push_text(&mut url, encoded.as_str());
            IconRender::Image { url }
        },
        None => builtin("default"),
    }
}

/// How an icon value gets its render.
#[derive(Debug, PartialEq)]
pub enum IconPlan {
    /// Decided without I/O, with a line for stderr when it degraded.
    Ready { render: IconRender, warning: Option<String> },
    /// Download the URL and make the bytes an image ([`image_data_url`]);
    /// a failed download shows the default icon.
    Download(String),
    /// Read the file and make the bytes an image ([`image_data_url`]); an
    /// unreadable file shows the default icon.
    ReadFile(String),
}

pub enum IconPlanV {
    Ready { render: IconRenderV, warning: Option<Seq<char>> },
    Download(Seq<char>),
    ReadFile(Seq<char>),
}

impl View for IconPlan {
    type V = IconPlanV;

    open spec fn view(&self) -> IconPlanV {
        match self {
            IconPlan::Ready { render, warning } => IconPlanV::Ready {
                render: render@,
                warning: opt_view(*warning),
            },
            IconPlan::Download(u) => IconPlanV::Download(u@),
            IconPlan::ReadFile(p) => IconPlanV::ReadFile(p@),
        }
    }
}

/// The render of an `SF=` symbol: its glyph, or the placeholder for a name
/// outside the table.
pub open spec fn sf_render(name: Seq<char>, color: Option<Seq<char>>) -> IconRenderV {
    match spec_sf_glyph(name) {
        Some(cp) => spec_glyph(cp, color),
        None => IconRenderV::Placeholder,
    }
}

pub open spec fn unmapped_warning(name: Seq<char>) -> Seq<char> {
    "WARNING: SF symbol '"@ + name + "' is not in the icon map — using placeholder"@
}

pub open spec fn app_icon_warning(path: Seq<char>) -> Seq<char> {
    "WARNING: application icon extraction ("@ + path
        + ") is not yet implemented — using default icon"@
}

/// What resolving an icon value takes.
pub open spec fn spec_plan(source: Seq<char>) -> IconPlanV {
    match spec_classify(source) {
        IconSourceV::Hidden => IconPlanV::Ready { render: IconRenderV::Hidden, warning: None },
        IconSourceV::Builtin(kw) => IconPlanV::Ready { render: spec_builtin(kw), warning: None },
        IconSourceV::Sf { name, color } => IconPlanV::Ready {
            render: sf_render(name, color),
            warning: if spec_sf_glyph(name) is Some {
                None
            } else {
                Some(unmapped_warning(name))
            },
        },
        IconSourceV::Url(url) => IconPlanV::Download(url),
        IconSourceV::AppBundle(path) => IconPlanV::Ready {
            render: spec_builtin("default"@),
            warning: Some(app_icon_warning(path)),
        },
        IconSourceV::File(path) => IconPlanV::ReadFile(path),
    }
}

fn render_sf(name: &String, color: Option<String>) -> (r: (IconRender, Option<String>))
    ensures
        r.0@ == sf_render(name@, opt_view(color)),
        opt_view(r.1) == (if spec_sf_glyph(name@) is Some {
            None
        } else {
            Some(unmapped_warning(name@))
        }),
{
    match sf_glyph(name.as_str()) {
        Some(cp) => (glyph(cp, color), None),
        None => {
            let mut w = String::new();
            push_text(&mut w, "WARNING: SF symbol '");
            push_text(&mut w, name.as_str());
            push_text(&mut w, "' is not in the icon map — using placeholder");
            (IconRender::Placeholder, Some(w))
        },
    }
}

/// Classify an icon value and decide its render, or the I/O it needs.
pub fn plan(source: &str) -> (r: IconPlan)
    ensures
        r@ == spec_plan(source@),
{
    match classify(source) {
        IconSource::Hidden => IconPlan::Ready { render: IconRender::Hidden, warning: None },
        IconSource::Builtin(kw) => IconPlan::Ready { render: builtin(kw.as_str()), warning: None },
        IconSource::Sf { name, color } => {
            let (render, warning) = render_sf(&name, color);
            IconPlan::Ready { render, warning }
        },
        IconSource::Url(url) => IconPlan::Download(url),
        IconSource::AppBundle(path) => {
            let mut w = String::new();
            push_text(&mut w, "WARNING: application icon extraction (");
            push_text(&mut w, path.as_str());
            push_text(&mut w, ") is not yet implemented — using default icon");
            IconPlan::Ready { render: builtin("default"), warning: Some(w) }
        },
        IconSource::File(path) => IconPlan::ReadFile(path),
    }
}

/// A button symbol (`--button1symbol` etc.): swiftDialog gives SF symbol
/// names bare, so the value is read as an `SF=` spec. `None` when blank.
pub open spec fn spec_resolve_symbol(name: Seq<char>) -> Option<IconRenderV> {
    let t = trim(name);
    if t.len() == 0 {
        None
    } else {
        let m = spec_parse_spec(t);
        Some(sf_render(lower_text(m.title), sf_color(m)))
    }
}

/// Resolve a button symbol; no I/O is involved.
pub fn resolve_symbol(name: &str) -> (r: Option<IconRender>)
    ensures
        match r {
            Some(x) => spec_resolve_symbol(name@) == Some(x@),
            None => spec_resolve_symbol(name@) is None,
        },
{
    let v = chars_of(name);
    let (a, b) = trim_bounds(&v, 0, v.len());
    assert(v@.subrange(0, v@.len() as int) =~= v@);
    if a == b {
        return None;
    }
    let t = string_of(&v, a, b);
    let parsed = parse_spec(t.as_str());
    let color = first_given(&parsed);
    let lname = to_lowercase(parsed.title.as_str());
    let (render, _) = render_sf(&lname, color);
    Some(render)
}

} // verus!
