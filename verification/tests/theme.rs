use herdr_reviewr::theme::{
    build, channels, is_known, resolve, Appearance, Bundled, Colors, Embedded, SyntaxChoice,
    DEFAULT,
};

const NAMED: &[(&str, bool)] = &[
    ("catppuccin", false),
    ("catppuccin-latte", true),
    ("dracula", false),
    ("nord", false),
    ("gruvbox", false),
    ("gruvbox-light", true),
    ("one-dark", false),
    ("one-light", true),
    ("solarized", false),
    ("solarized-light", true),
    ("catppuccin-frappe", false),
    ("catppuccin-macchiato", false),
    ("github-light", true),
    ("monokai", false),
    ("tokyo-night", false),
    ("tokyo-night-day", true),
    ("rose-pine", false),
    ("rose-pine-dawn", true),
];

#[test]
fn unknown_and_terminal_fall_back_to_default() {
    assert_eq!(resolve(Some("nope")).name, "catppuccin");
    assert_eq!(resolve(Some("terminal")).name, "catppuccin");
    assert_eq!(resolve(None).name, "catppuccin");
}

#[test]
fn latte_is_a_selectable_light_theme() {
    assert_eq!(resolve(Some("catppuccin-latte")).name, "catppuccin-latte");
}

#[test]
fn every_named_theme_resolves_to_itself() {
    for &(name, _) in NAMED {
        assert_eq!(resolve(Some(name)).name, name, "{name} should resolve to its own palette");
    }
}

#[test]
fn every_named_theme_has_its_cast() {
    for &(name, light) in NAMED {
        let expected = if light { Appearance::Light } else { Appearance::Dark };
        assert_eq!(resolve(Some(name)).appearance, expected, "{name}");
        assert!(is_known(name));
    }
    assert!(!is_known("terminal"));
    assert!(!is_known("Catppuccin"));
    assert!(build("").is_none());
}

#[test]
fn catppuccin_is_the_unchanged_mocha_palette() {
    let t = resolve(Some(DEFAULT));
    assert_eq!(t.syntax, SyntaxChoice::Bundled(Bundled::Mocha));
    match t.colors {
        Colors::Pinned(p) => {
            assert_eq!(p.surface0, 0x313244);
            assert_eq!(p.text, 0xcdd6f4);
            assert_eq!(p.del_bg, 0x45232f);
            assert_eq!(p.ins_bg, 0x1f3a2a);
        }
        Colors::Derived(_) => panic!("catppuccin is pinned"),
    }
}

#[test]
fn derived_themes_carry_their_anchors_and_syntax() {
    let t = resolve(Some("gruvbox"));
    assert_eq!(t.syntax, SyntaxChoice::Embedded(Embedded::GruvboxDark));
    match t.colors {
        Colors::Derived(a) => {
            assert_eq!(a.base, 0x282828);
            assert_eq!(a.lavender, 0x83a598);
        }
        Colors::Pinned(_) => panic!("gruvbox is derived"),
    }
    assert_eq!(resolve(Some("rose-pine-dawn")).syntax, SyntaxChoice::Bundled(Bundled::RosePineDawn));
}

#[test]
fn channels_split_a_hex_color() {
    assert_eq!(channels(0x313244), (0x31, 0x32, 0x44));
    assert_eq!(channels(0xffffff), (0xff, 0xff, 0xff));
    assert_eq!(channels(0), (0, 0, 0));
}
