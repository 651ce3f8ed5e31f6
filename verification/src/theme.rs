//! The theme catalog: which names select a complete built-in theme, each theme's cast, the
//! syntax theme it pairs with, and its colors — a pinned palette for Catppuccin Mocha, the
//! anchor colors every other palette is derived from. Colors are `0xRRGGBB` values; the
//! floating-point derivation of the remaining slots, and painting, belong to the front end.

use vstd::prelude::*;

use crate::text::str_eq;

verus! {

/// The default theme name; the fallback for an unset or unknown name.
pub const DEFAULT: &'static str = "catppuccin";

/// A theme's intrinsic cast, which sets the derivation direction.
#[derive(Clone, Copy, Debug, PartialEq, Eq, Structural)]
pub enum Appearance {
    Dark,
    Light,
}

/// A syntax theme shipped as a vendored `.tmTheme` asset.
#[derive(Clone, Copy, Debug, PartialEq, Eq, Structural)]
pub enum Bundled {
    Mocha,
    TokyoNight,
    TokyoNightDay,
    RosePine,
    RosePineDawn,
}

/// A syntax theme from the highlighter's embedded set.
#[derive(Clone, Copy, Debug, PartialEq, Eq, Structural)]
pub enum Embedded {
    CatppuccinLatte,
    CatppuccinFrappe,
    CatppuccinMacchiato,
    Dracula,
    Nord,
    GruvboxDark,
    GruvboxLight,
    TwoDark,
    OneHalfLight,
    SolarizedDark,
    SolarizedLight,
    Github,
    MonokaiExtended,
}

/// The syntax theme paired with a palette.
#[derive(Clone, Copy, Debug, PartialEq, Eq, Structural)]
pub enum SyntaxChoice {
    Bundled(Bundled),
    Embedded(Embedded),
}

/// The anchor colors a derived palette is computed from.
#[derive(Clone, Copy, Debug, PartialEq, Eq, Structural)]
pub struct Anchors {
    pub base: u32,
    pub text: u32,
    pub red: u32,
    pub green: u32,
    pub yellow: u32,
    pub peach: u32,
    pub mauve: u32,
    pub lavender: u32,
}

/// A palette given slot by slot.
#[derive(Clone, Copy, Debug, PartialEq, Eq, Structural)]
pub struct PinnedPalette {
    pub surface0: u32,
    pub surface1: u32,
    pub surface2: u32,
    pub overlay0: u32,
    pub overlay1: u32,
    pub subtext0: u32,
    pub text: u32,
    pub red: u32,
    pub green: u32,
    pub yellow: u32,
    pub peach: u32,
    pub mauve: u32,
    pub lavender: u32,
    pub del_bg: u32,
    pub ins_bg: u32,
    pub emph_del_bg: u32,
    pub emph_ins_bg: u32,
}

/// Where a theme's colors come from.
#[derive(Clone, Copy, Debug, PartialEq, Eq, Structural)]
pub enum Colors {
    Pinned(PinnedPalette),
    Derived(Anchors),
}

/// A resolved theme: its name, cast, colors and paired syntax theme.
#[derive(Clone, Copy, Debug)]
pub struct Theme {
    pub name: &'static str,
    pub appearance: Appearance,
    pub colors: Colors,
    pub syntax: SyntaxChoice,
}

/// Catppuccin Mocha, pinned to its canonical values.
pub open spec fn mocha_palette() -> PinnedPalette {
    PinnedPalette {
        surface0: 0x313244,
        surface1: 0x45475a,
        surface2: 0x585b70,
        overlay0: 0x6c7086,
        overlay1: 0x7f849c,
        subtext0: 0xa6adc8,
        text: 0xcdd6f4,
        red: 0xf38ba8,
        green: 0xa6e3a1,
        yellow: 0xf9e2af,
        peach: 0xfab387,
        mauve: 0xcba6f7,
        lavender: 0xb4befe,
        del_bg: 0x45232f,
        ins_bg: 0x1f3a2a,
        emph_del_bg: 0x6e3446,
        emph_ins_bg: 0x30553f,
    }
}

/// What a theme name selects: its cast, paired syntax theme and colors; nothing for a name
/// outside the catalog (`terminal` among them).
pub open spec fn catalog(name: Seq<char>) -> Option<(Appearance, SyntaxChoice, Colors)> {
    if name == "catppuccin"@ {
        Some((Appearance::Dark, SyntaxChoice::Bundled(Bundled::Mocha), Colors::Pinned(mocha_palette())))
    } else if name == "catppuccin-latte"@ {
        Some((Appearance::Light, SyntaxChoice::Embedded(Embedded::CatppuccinLatte), Colors::Derived(Anchors { base: 0xeff1f5, text: 0x4c4f69, red: 0xd20f39, green: 0x40a02b, yellow: 0xdf8e1d, peach: 0xfe640b, mauve: 0x8839ef, lavender: 0x7287fd })))
    } else if name == "dracula"@ {
        Some((Appearance::Dark, SyntaxChoice::Embedded(Embedded::Dracula), Colors::Derived(Anchors { base: 0x282a36, text: 0xf8f8f2, red: 0xff5555, green: 0x50fa7b, yellow: 0xf1fa8c, peach: 0xffb86c, mauve: 0xbd93f9, lavender: 0x8be9fd })))
    } else if name == "nord"@ {
        Some((Appearance::Dark, SyntaxChoice::Embedded(Embedded::Nord), Colors::Derived(Anchors { base: 0x2e3440, text: 0xd8dee9, red: 0xbf616a, green: 0xa3be8c, yellow: 0xebcb8b, peach: 0xd08770, mauve: 0xb48ead, lavender: 0x81a1c1 })))
    } else if name == "gruvbox"@ {
        Some((Appearance::Dark, SyntaxChoice::Embedded(Embedded::GruvboxDark), Colors::Derived(Anchors { base: 0x282828, text: 0xebdbb2, red: 0xfb4934, green: 0xb8bb26, yellow: 0xfabd2f, peach: 0xfe8019, mauve: 0xd3869b, lavender: 0x83a598 })))
    } else if name == "gruvbox-light"@ {
        Some((Appearance::Light, SyntaxChoice::Embedded(Embedded::GruvboxLight), Colors::Derived(Anchors { base: 0xfbf1c7, text: 0x3c3836, red: 0x9d0006, green: 0x79740e, yellow: 0xb57614, peach: 0xaf3a03, mauve: 0x8f3f71, lavender: 0x076678 })))
    } else if name == "one-dark"@ {
        Some((Appearance::Dark, SyntaxChoice::Embedded(Embedded::TwoDark), Colors::Derived(Anchors { base: 0x282c34, text: 0xabb2bf, red: 0xe06c75, green: 0x98c379, yellow: 0xe5c07b, peach: 0xd19a66, mauve: 0xc678dd, lavender: 0x61afef })))
    } else if name == "one-light"@ {
        Some((Appearance::Light, SyntaxChoice::Embedded(Embedded::OneHalfLight), Colors::Derived(Anchors { base: 0xfafafa, text: 0x383a42, red: 0xe45649, green: 0x50a14f, yellow: 0xc18401, peach: 0x986801, mauve: 0xa626a4, lavender: 0x4078f2 })))
    } else if name == "solarized"@ {
        Some((Appearance::Dark, SyntaxChoice::Embedded(Embedded::SolarizedDark), Colors::Derived(Anchors { base: 0x002b36, text: 0x93a1a1, red: 0xdc322f, green: 0x859900, yellow: 0xb58900, peach: 0xcb4b16, mauve: 0x6c71c4, lavender: 0x268bd2 })))
    } else if name == "solarized-light"@ {
        Some((Appearance::Light, SyntaxChoice::Embedded(Embedded::SolarizedLight), Colors::Derived(Anchors { base: 0xfdf6e3, text: 0x586e75, red: 0xdc322f, green: 0x859900, yellow: 0xb58900, peach: 0xcb4b16, mauve: 0x6c71c4, lavender: 0x268bd2 })))
    } else if name == "catppuccin-frappe"@ {
        Some((Appearance::Dark, SyntaxChoice::Embedded(Embedded::CatppuccinFrappe), Colors::Derived(Anchors { base: 0x303446, text: 0xc6d0f5, red: 0xe78284, green: 0xa6d189, yellow: 0xe5c890, peach: 0xef9f76, mauve: 0xca9ee6, lavender: 0xbabbf1 })))
    } else if name == "catppuccin-macchiato"@ {
        Some((Appearance::Dark, SyntaxChoice::Embedded(Embedded::CatppuccinMacchiato), Colors::Derived(Anchors { base: 0x24273a, text: 0xcad3f5, red: 0xed8796, green: 0xa6da95, yellow: 0xeed49f, peach: 0xf5a97f, mauve: 0xc6a0f6, lavender: 0xb7bdf8 })))
    } else if name == "github-light"@ {
        Some((Appearance::Light, SyntaxChoice::Embedded(Embedded::Github), Colors::Derived(Anchors { base: 0xffffff, text: 0x1f2328, red: 0xcf222e, green: 0x1a7f37, yellow: 0x9a6700, peach: 0xbc4c00, mauve: 0x8250df, lavender: 0x0969da })))
    } else if name == "monokai"@ {
        Some((Appearance::Dark, SyntaxChoice::Embedded(Embedded::MonokaiExtended), Colors::Derived(Anchors { base: 0x272822, text: 0xf8f8f2, red: 0xf92672, green: 0xa6e22e, yellow: 0xe6db74, peach: 0xfd971f, mauve: 0xae81ff, lavender: 0x66d9ef })))
    } else if name == "tokyo-night"@ {
        Some((Appearance::Dark, SyntaxChoice::Bundled(Bundled::TokyoNight), Colors::Derived(Anchors { base: 0x1a1b26, text: 0xc0caf5, red: 0xf7768e, green: 0x9ece6a, yellow: 0xe0af68, peach: 0xff9e64, mauve: 0xbb9af7, lavender: 0x7aa2f7 })))
    } else if name == "tokyo-night-day"@ {
        Some((Appearance::Light, SyntaxChoice::Bundled(Bundled::TokyoNightDay), Colors::Derived(Anchors { base: 0xe1e2e7, text: 0x3760bf, red: 0xf52a65, green: 0x587539, yellow: 0x8c6c3e, peach: 0xb15c00, mauve: 0x9854f1, lavender: 0x2e7de9 })))
    } else if name == "rose-pine"@ {
        Some((Appearance::Dark, SyntaxChoice::Bundled(Bundled::RosePine), Colors::Derived(Anchors { base: 0x191724, text: 0xe0def4, red: 0xeb6f92, green: 0x9ccfd8, yellow: 0xf6c177, peach: 0xebbcba, mauve: 0xc4a7e7, lavender: 0x31748f })))
    } else if name == "rose-pine-dawn"@ {
        Some((Appearance::Light, SyntaxChoice::Bundled(Bundled::RosePineDawn), Colors::Derived(Anchors { base: 0xfaf4ed, text: 0x575279, red: 0xb4637a, green: 0x56949f, yellow: 0xea9d34, peach: 0xd7827e, mauve: 0x907aa9, lavender: 0x286983 })))
    } else {
        None
    }
}

/// Whether a name selects a complete built-in theme.
pub open spec fn known(name: Seq<char>) -> bool {
    catalog(name) is Some
}

/// The theme named `name`, when the catalog has it.
pub fn build(name: &str) -> (t: Option<Theme>)
    ensures
        match t {
            Some(t) => t.name@ == name@ && catalog(name@) == Some((t.appearance, t.syntax, t.colors)),
            None => catalog(name@) is None,
        },
{
    if str_eq(name, "catppuccin") {
        Some(Theme {
            name: "catppuccin",
            appearance: Appearance::Dark,
            colors: Colors::Pinned(PinnedPalette {
                surface0: 0x313244,
                surface1: 0x45475a,
                surface2: 0x585b70,
                overlay0: 0x6c7086,
                overlay1: 0x7f849c,
                subtext0: 0xa6adc8,
                text: 0xcdd6f4,
                red: 0xf38ba8,
                green: 0xa6e3a1,
                yellow: 0xf9e2af,
                peach: 0xfab387,
                mauve: 0xcba6f7,
                lavender: 0xb4befe,
                del_bg: 0x45232f,
                ins_bg: 0x1f3a2a,
                emph_del_bg: 0x6e3446,
                emph_ins_bg: 0x30553f,
            }),
            syntax: SyntaxChoice::Bundled(Bundled::Mocha),
        })
    } else if str_eq(name, "catppuccin-latte") {
        Some(Theme {
            name: "catppuccin-latte",
            appearance: Appearance::Light,
            colors: Colors::Derived(Anchors { base: 0xeff1f5, text: 0x4c4f69, red: 0xd20f39, green: 0x40a02b, yellow: 0xdf8e1d, peach: 0xfe640b, mauve: 0x8839ef, lavender: 0x7287fd }),
            syntax: SyntaxChoice::Embedded(Embedded::CatppuccinLatte),
        })
    } else if str_eq(name, "dracula") {
        Some(Theme {
            name: "dracula",
            appearance: Appearance::Dark,
            colors: Colors::Derived(Anchors { base: 0x282a36, text: 0xf8f8f2, red: 0xff5555, green: 0x50fa7b, yellow: 0xf1fa8c, peach: 0xffb86c, mauve: 0xbd93f9, lavender: 0x8be9fd }),
            syntax: SyntaxChoice::Embedded(Embedded::Dracula),
        })
    } else if str_eq(name, "nord") {
        Some(Theme {
            name: "nord",
            appearance: Appearance::Dark,
            colors: Colors::Derived(Anchors { base: 0x2e3440, text: 0xd8dee9, red: 0xbf616a, green: 0xa3be8c, yellow: 0xebcb8b, peach: 0xd08770, mauve: 0xb48ead, lavender: 0x81a1c1 }),
            syntax: SyntaxChoice::Embedded(Embedded::Nord),
        })
    } else if str_eq(name, "gruvbox") {
        Some(Theme {
            name: "gruvbox",
            appearance: Appearance::Dark,
            colors: Colors::Derived(Anchors { base: 0x282828, text: 0xebdbb2, red: 0xfb4934, green: 0xb8bb26, yellow: 0xfabd2f, peach: 0xfe8019, mauve: 0xd3869b, lavender: 0x83a598 }),
            syntax: SyntaxChoice::Embedded(Embedded::GruvboxDark),
        })
    } else if str_eq(name, "gruvbox-light") {
        Some(Theme {
            name: "gruvbox-light",
            appearance: Appearance::Light,
            colors: Colors::Derived(Anchors { base: 0xfbf1c7, text: 0x3c3836, red: 0x9d0006, green: 0x79740e, yellow: 0xb57614, peach: 0xaf3a03, mauve: 0x8f3f71, lavender: 0x076678 }),
            syntax: SyntaxChoice::Embedded(Embedded::GruvboxLight),
        })
    } else if str_eq(name, "one-dark") {
        Some(Theme {
            name: "one-dark",
            appearance: Appearance::Dark,
            colors: Colors::Derived(Anchors { base: 0x282c34, text: 0xabb2bf, red: 0xe06c75, green: 0x98c379, yellow: 0xe5c07b, peach: 0xd19a66, mauve: 0xc678dd, lavender: 0x61afef }),
            syntax: SyntaxChoice::Embedded(Embedded::TwoDark),
        })
    } else if str_eq(name, "one-light") {
        Some(Theme {
            name: "one-light",
            appearance: Appearance::Light,
            colors: Colors::Derived(Anchors { base: 0xfafafa, text: 0x383a42, red: 0xe45649, green: 0x50a14f, yellow: 0xc18401, peach: 0x986801, mauve: 0xa626a4, lavender: 0x4078f2 }),
            syntax: SyntaxChoice::Embedded(Embedded::OneHalfLight),
        })
    } else if str_eq(name, "solarized") {
        Some(Theme {
            name: "solarized",
            appearance: Appearance::Dark,
            colors: Colors::Derived(Anchors { base: 0x002b36, text: 0x93a1a1, red: 0xdc322f, green: 0x859900, yellow: 0xb58900, peach: 0xcb4b16, mauve: 0x6c71c4, lavender: 0x268bd2 }),
            syntax: SyntaxChoice::Embedded(Embedded::SolarizedDark),
        })
    } else if str_eq(name, "solarized-light") {
        Some(Theme {
            name: "solarized-light",
            appearance: Appearance::Light,
            colors: Colors::Derived(Anchors { base: 0xfdf6e3, text: 0x586e75, red: 0xdc322f, green: 0x859900, yellow: 0xb58900, peach: 0xcb4b16, mauve: 0x6c71c4, lavender: 0x268bd2 }),
            syntax: SyntaxChoice::Embedded(Embedded::SolarizedLight),
        })
    } else if str_eq(name, "catppuccin-frappe") {
        Some(Theme {
            name: "catppuccin-frappe",
            appearance: Appearance::Dark,
            colors: Colors::Derived(Anchors { base: 0x303446, text: 0xc6d0f5, red: 0xe78284, green: 0xa6d189, yellow: 0xe5c890, peach: 0xef9f76, mauve: 0xca9ee6, lavender: 0xbabbf1 }),
            syntax: SyntaxChoice::Embedded(Embedded::CatppuccinFrappe),
        })
    } else if str_eq(name, "catppuccin-macchiato") {
        Some(Theme {
            name: "catppuccin-macchiato",
            appearance: Appearance::Dark,
            colors: Colors::Derived(Anchors { base: 0x24273a, text: 0xcad3f5, red: 0xed8796, green: 0xa6da95, yellow: 0xeed49f, peach: 0xf5a97f, mauve: 0xc6a0f6, lavender: 0xb7bdf8 }),
            syntax: SyntaxChoice::Embedded(Embedded::CatppuccinMacchiato),
        })
    } else if str_eq(name, "github-light") {
        Some(Theme {
            name: "github-light",
            appearance: Appearance::Light,
            colors: Colors::Derived(Anchors { base: 0xffffff, text: 0x1f2328, red: 0xcf222e, green: 0x1a7f37, yellow: 0x9a6700, peach: 0xbc4c00, mauve: 0x8250df, lavender: 0x0969da }),
            syntax: SyntaxChoice::Embedded(Embedded::Github),
        })
    } else if str_eq(name, "monokai") {
        Some(Theme {
            name: "monokai",
            appearance: Appearance::Dark,
            colors: Colors::Derived(Anchors { base: 0x272822, text: 0xf8f8f2, red: 0xf92672, green: 0xa6e22e, yellow: 0xe6db74, peach: 0xfd971f, mauve: 0xae81ff, lavender: 0x66d9ef }),
            syntax: SyntaxChoice::Embedded(Embedded::MonokaiExtended),
        })
    } else if str_eq(name, "tokyo-night") {
        Some(Theme {
            name: "tokyo-night",
            appearance: Appearance::Dark,
            colors: Colors::Derived(Anchors { base: 0x1a1b26, text: 0xc0caf5, red: 0xf7768e, green: 0x9ece6a, yellow: 0xe0af68, peach: 0xff9e64, mauve: 0xbb9af7, lavender: 0x7aa2f7 }),
            syntax: SyntaxChoice::Bundled(Bundled::TokyoNight),
        })
    } else if str_eq(name, "tokyo-night-day") {
        Some(Theme {
            name: "tokyo-night-day",
            appearance: Appearance::Light,
            colors: Colors::Derived(Anchors { base: 0xe1e2e7, text: 0x3760bf, red: 0xf52a65, green: 0x587539, yellow: 0x8c6c3e, peach: 0xb15c00, mauve: 0x9854f1, lavender: 0x2e7de9 }),
            syntax: SyntaxChoice::Bundled(Bundled::TokyoNightDay),
        })
    } else if str_eq(name, "rose-pine") {
        Some(Theme {
            name: "rose-pine",
            appearance: Appearance::Dark,
            colors: Colors::Derived(Anchors { base: 0x191724, text: 0xe0def4, red: 0xeb6f92, green: 0x9ccfd8, yellow: 0xf6c177, peach: 0xebbcba, mauve: 0xc4a7e7, lavender: 0x31748f }),
            syntax: SyntaxChoice::Bundled(Bundled::RosePine),
        })
    } else if str_eq(name, "rose-pine-dawn") {
        Some(Theme {
            name: "rose-pine-dawn",
            appearance: Appearance::Light,
            colors: Colors::Derived(Anchors { base: 0xfaf4ed, text: 0x575279, red: 0xb4637a, green: 0x56949f, yellow: 0xea9d34, peach: 0xd7827e, mauve: 0x907aa9, lavender: 0x286983 }),
            syntax: SyntaxChoice::Bundled(Bundled::RosePineDawn),
        })
    } else {
        None
    }
}

/// Whether `name` selects a complete built-in theme.
pub fn is_known(name: &str) -> (b: bool)
    ensures
        b == known(name@),
{
    build(name).is_some()
}

/// The name a requested theme resolves to: the name itself when the catalog has it, the
/// default otherwise.
pub open spec fn resolved_name(name: Option<Seq<char>>) -> Seq<char> {
    match name {
        Some(n) => if known(n) {
            n
        } else {
            DEFAULT@
        },
        None => DEFAULT@,
    }
}

/// Resolve a theme name: a known name selects its own theme; none, an unknown name, or one not
/// yet supported (`terminal`) falls back to the default — never a half-palette.
pub fn resolve(name: Option<&str>) -> (t: Theme)
    ensures
        t.name@ == resolved_name(
            match name {
                Some(n) => Some(n@),
                None => None,
            },
        ),
        catalog(t.name@) == Some((t.appearance, t.syntax, t.colors)),
{
    let fallback = match build(DEFAULT) {
        Some(t) => t,
        None => vstd::pervasive::unreached(),
    };
    match name {
        None => fallback,
        Some(n) => match build(n) {
            Some(t) => t,
            None => fallback,
        },
    }
}

/// The red, green and blue channels of a `0xRRGGBB` color.
pub fn channels(rgb: u32) -> (c: (u8, u8, u8))
    requires
        rgb <= 0xff_ffff,
    ensures
        c.0 == rgb / 0x1_0000,
        c.1 == (rgb / 0x100) % 0x100,
        c.2 == rgb % 0x100,
{
    let r = (rgb >> 16) as u8;
    let g = ((rgb >> 8) & 0xff) as u8;
    let b = (rgb & 0xff) as u8;
    assert(r == rgb / 0x1_0000) by (bit_vector)
        requires
            rgb <= 0xff_ffff,
            r == (rgb >> 16) as u8,
    ;
    assert(g == (rgb / 0x100) % 0x100) by (bit_vector)
        requires
            g == ((rgb >> 8) & 0xff) as u8,
    ;
    assert(b == rgb % 0x100) by (bit_vector)
        requires
            b == (rgb & 0xff) as u8,
    ;
    (r, g, b)
}

/// Resolution always lands in the catalog, and resolving the resolved name again gives the
/// same name: whatever was asked for, the theme painted is a complete built-in one.
pub proof fn law_resolution_is_closed(name: Option<Seq<char>>)
    ensures
        known(resolved_name(name)),
        resolved_name(Some(resolved_name(name))) == resolved_name(name),
{
}

} // verus!
