use dialog_core::icon::{
    builtin, classify, image_data_url, image_mime, plan, resolve_symbol, sf_glyph, IconPlan,
    IconRender, IconSource,
};

/// Resolution as the shell performs it; a file or URL that cannot be
/// fetched shows the default icon.
fn resolve(source: &str) -> IconRender {
    match plan(source) {
        IconPlan::Ready { render, .. } => render,
        IconPlan::Download(_) | IconPlan::ReadFile(_) => builtin("default"),
    }
}

#[test]
fn none_and_empty_hide() {
    assert_eq!(resolve("none"), IconRender::Hidden);
    assert_eq!(resolve("  "), IconRender::Hidden);
}

#[test]
fn builtins_are_tinted_glyphs() {
    let IconRender::Glyph { color, .. } = resolve("warning") else {
        panic!("expected glyph");
    };
    assert_eq!(color.as_deref(), Some("#ff9500"));
    assert!(matches!(resolve("info"), IconRender::Glyph { .. }));
    let (IconRender::Glyph { glyph: w, .. }, IconRender::Glyph { glyph: c, .. }) =
        (resolve("warning"), resolve("caution"))
    else {
        panic!("expected glyphs");
    };
    assert_eq!(w, c);
}

#[test]
fn sf_maps_to_glyph_and_fill_picks_variant() {
    let regular = sf_glyph("checkmark.circle").unwrap();
    let filled = sf_glyph("checkmark.circle.fill").unwrap();
    assert_ne!(regular, filled);
    assert_eq!(regular, 58462);
    assert_eq!(filled, 58461);
    assert_eq!(sf_glyph("gear"), sf_glyph("gearshape"));
}

#[test]
fn sf_spec_parses_colour_modifier() {
    let IconSource::Sf { name, color } = classify("SF=gear,colour=#ff0000,weight=bold") else {
        panic!("expected SF source");
    };
    assert_eq!(name, "gear");
    assert_eq!(color.as_deref(), Some("#ff0000"));
}

#[test]
fn sf_colour_applies_to_glyph() {
    let IconRender::Glyph { color, .. } = resolve("SF=gear,color=blue") else {
        panic!("expected glyph");
    };
    assert_eq!(color.as_deref(), Some("blue"));
}

#[test]
fn unmapped_sf_falls_back_to_placeholder() {
    assert_eq!(resolve("SF=obscure.symbol.name"), IconRender::Placeholder);
}

#[test]
fn app_bundle_paths_are_deferred_to_default() {
    assert!(matches!(resolve("/Applications/Safari.app"), IconRender::Glyph { .. }));
    assert!(matches!(resolve("C:\\Windows\\System32\\notepad.exe"), IconRender::Glyph { .. }));
}

#[test]
fn classify_distinguishes_sources() {
    assert!(matches!(classify("https://x/y.png"), IconSource::Url(_)));
    assert!(matches!(classify("/tmp/logo.png"), IconSource::File(_)));
    assert!(matches!(classify("Foo.app"), IconSource::AppBundle(_)));
}

#[test]
fn missing_file_degrades_to_default() {
    assert!(matches!(resolve("/no/such/icon/path.png"), IconRender::Glyph { .. }));
}

#[test]
fn svg_detected_by_extension() {
    assert_eq!(image_mime("logo.svg", b"<svg></svg>"), Some("image/svg+xml"));
    assert_eq!(image_mime("x", b"<svg "), Some("image/svg+xml"));
}

#[test]
fn icns_is_rejected() {
    assert_eq!(image_mime("x.icns", b"icns\0\0\0\0"), None);
}

#[test]
fn png_bytes_become_a_png_data_url() {
    let png: &[u8] = &[
        0x89, 0x50, 0x4E, 0x47, 0x0D, 0x0A, 0x1A, 0x0A, 0x00, 0x00, 0x00, 0x0D, 0x49, 0x48, 0x44,
        0x52,
    ];
    let IconRender::Image { url } = image_data_url("/tmp/x.png", png) else {
        panic!("expected image");
    };
    assert!(url.starts_with("data:image/png;base64,"));
    assert_eq!(url, "data:image/png;base64,iVBORw0KGgoAAAANSUhEUg==");
}

#[test]
fn magic_bytes_pick_the_mime_type() {
    assert_eq!(image_mime("a", &[0xFF, 0xD8, 0xFF, 0xE0]), Some("image/jpeg"));
    assert_eq!(image_mime("a", b"GIF89a"), Some("image/gif"));
    assert_eq!(image_mime("a", b"RIFF\0\0\0\0WEBPVP8 "), Some("image/webp"));
    assert_eq!(image_mime("a", b"RIFF\0\0\0\0WAVEfmt "), None);
    assert_eq!(image_mime("a", b"BM\0\0"), Some("image/bmp"));
    assert_eq!(image_mime("a", &[0, 0, 1, 0, 1]), Some("image/x-icon"));
    assert_eq!(image_mime("LOGO.SVG", b"\x89junk"), Some("image/svg+xml"));
    assert_eq!(image_mime("a", b"  \n<?xml version"), Some("image/svg+xml"));
    assert_eq!(image_mime("a", b"plain text"), None);
    assert_eq!(image_mime("a", &[0xC3]), None);
}

#[test]
fn unsupported_image_shows_default_icon() {
    assert_eq!(image_data_url("x.icns", b"icns\0\0\0\0"), builtin("default"));
}

#[test]
fn url_and_file_sources_ask_for_io() {
    assert_eq!(plan(" https://example.com/i.png "), IconPlan::Download("https://example.com/i.png".into()));
    assert_eq!(plan("/tmp/logo.png"), IconPlan::ReadFile("/tmp/logo.png".into()));
}

#[test]
fn degraded_sources_carry_a_warning() {
    let IconPlan::Ready { render, warning } = plan("SF=no.such") else { panic!("expected ready") };
    assert_eq!(render, IconRender::Placeholder);
    assert_eq!(
        warning.as_deref(),
        Some("WARNING: SF symbol 'no.such' is not in the icon map — using placeholder")
    );
    let IconPlan::Ready { warning, .. } = plan("Foo.APP") else { panic!("expected ready") };
    assert_eq!(
        warning.as_deref(),
        Some("WARNING: application icon extraction (Foo.APP) is not yet implemented — using default icon")
    );
}

#[test]
fn glyph_text_is_the_codepoint_character() {
    let IconRender::Glyph { glyph, color } = builtin("default") else { panic!("expected glyph") };
    assert_eq!(glyph, char::from_u32(59998).unwrap().to_string());
    assert_eq!(color, None);
    assert_eq!(builtin("other"), IconRender::Placeholder);
    assert!(matches!(classify("WARNING"), IconSource::Builtin(k) if k == "warning"));
}

#[test]
fn button_symbols_resolve_through_the_sf_table() {
    assert_eq!(resolve_symbol("   "), None);
    let Some(IconRender::Glyph { glyph, .. }) = resolve_symbol(" Gear ") else { panic!("expected glyph") };
    assert_eq!(glyph, char::from_u32(61397).unwrap().to_string());
    assert_eq!(resolve_symbol("nope.nope"), Some(IconRender::Placeholder));
}

#[test]
fn svg_markup_is_sniffed_after_whitespace() {
    assert!(dialog_core::icon::looks_like_svg("\n  <svg xmlns=\"x\">"));
    assert!(dialog_core::icon::looks_like_svg("<?xml version=\"1.0\"?>"));
    assert!(!dialog_core::icon::looks_like_svg("<html>"));
}

#[test]
fn file_path_becomes_a_png_data_url() {
    // 1x1 transparent PNG, as read from the file the plan names.
    let png: &[u8] = &[
        0x89, 0x50, 0x4E, 0x47, 0x0D, 0x0A, 0x1A, 0x0A, 0x00, 0x00, 0x00, 0x0D, 0x49, 0x48, 0x44,
        0x52, 0x00, 0x00, 0x00, 0x01, 0x00, 0x00, 0x00, 0x01, 0x08, 0x06, 0x00, 0x00, 0x00, 0x1F,
        0x15, 0xC4, 0x89, 0x00, 0x00, 0x00, 0x0A, 0x49, 0x44, 0x41, 0x54, 0x78, 0x9C, 0x63, 0x00,
        0x01, 0x00, 0x00, 0x05, 0x00, 0x01, 0x0D, 0x0A, 0x2D, 0xB4, 0x00, 0x00, 0x00, 0x00, 0x49,
        0x45, 0x4E, 0x44, 0xAE, 0x42, 0x60, 0x82,
    ];
    let IconPlan::ReadFile(path) = plan("/tmp/dialog_icon_test.png") else {
        panic!("expected a file read");
    };
    let IconRender::Image { url } = image_data_url(&path, png) else {
        panic!("expected image");
    };
    assert!(url.starts_with("data:image/png;base64,"));
}
