use dialog_core::options::{by_long, by_short, canonical, options};

#[test]
fn table_covers_full_upstream_surface() {
    assert_eq!(options().len(), 132);
}

#[test]
fn long_names_are_unique() {
    let all = options();
    for (i, a) in all.iter().enumerate() {
        for b in &all[i + 1..] {
            assert_ne!(a.long, b.long, "duplicate long name: {}", a.long);
        }
    }
}

#[test]
fn short_names_are_unique() {
    let shorts: Vec<&str> = options().iter().filter_map(|o| o.short).collect();
    for (i, a) in shorts.iter().enumerate() {
        for b in &shorts[i + 1..] {
            assert_ne!(a, b, "duplicate short name: {a}");
        }
    }
}

#[test]
fn aliases_resolve_to_existing_canonical_options() {
    for o in options() {
        if let Some(target) = o.alias_of {
            let c = by_long(target).expect("alias target exists");
            assert!(c.alias_of.is_none(), "alias chains are not allowed");
            assert_eq!(c.kind, o.kind, "alias {} kind mismatch", o.long);
        }
    }
}

#[test]
fn compat_defaults_match_upstream() {
    assert_eq!(by_long("width").unwrap().default, Some("820"));
    assert_eq!(by_long("height").unwrap().default, Some("380"));
    assert_eq!(by_long("timer").unwrap().default, Some("10"));
    assert_eq!(by_long("button1text").unwrap().default, Some("OK"));
    assert_eq!(by_long("button2text").unwrap().default, Some("Cancel"));
    assert_eq!(by_long("quitkey").unwrap().default, Some("q"));
    assert_eq!(by_long("iconsize").unwrap().default, Some("150"));
    assert_eq!(by_long("infobuttontext").unwrap().default, Some("More Information"));
}

#[test]
fn short_aliases_match_upstream() {
    for (s, l) in [
        ("t", "title"),
        ("m", "message"),
        ("i", "icon"),
        ("2", "button2"),
        ("j", "json"),
        ("v", "version"),
        ("bg", "background"),
    ] {
        assert_eq!(by_short(s).unwrap().long, l);
    }
}

#[test]
fn canonical_of_alias_is_its_target() {
    let alias = by_long("alignment").unwrap();
    assert_eq!(canonical(alias).long, "messagealignment");
    let plain = by_long("title").unwrap();
    assert_eq!(canonical(plain).long, "title");
    assert!(by_long("nosuchoption").is_none());
    assert!(by_short("zz").is_none());
}

#[test]
fn every_long_name_finds_its_own_entry() {
    for o in options() {
        assert_eq!(by_long(o.long).unwrap().long, o.long);
    }
    assert!(by_long("frobnicate").is_none());
}
