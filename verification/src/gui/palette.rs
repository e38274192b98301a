//! Colour themes. Colours are RGB565 channel triples; the selected theme is
//! held in a `ThemeSetting`.
use vstd::prelude::*;

verus! {

#[derive(Clone, Copy, Debug, PartialEq, Eq, Structural)]
pub enum Theme {
    Nockster,
    Solarized,
    Nord,
    Dracula,
    Mono,
    Paper,
}

pub const THEME_COUNT: u8 = 6;

/// A colour as 5-bit red, 6-bit green and 5-bit blue channels.
#[derive(Clone, Copy, Debug, PartialEq, Eq, Structural)]
pub struct Color565 {
    pub r: u8,
    pub g: u8,
    pub b: u8,
}

pub open spec fn rgb(r: u8, g: u8, b: u8) -> Color565 {
    Color565 { r, g, b }
}

impl Color565 {
    /// The channels fit their widths.
    pub open spec fn valid(self) -> bool {
        self.r < 32 && self.g < 64 && self.b < 32
    }
}

fn c(r: u8, g: u8, b: u8) -> (out: Color565)
    ensures
        out == rgb(r, g, b),
{
    Color565 { r, g, b }
}

#[derive(Clone, Copy, Debug, PartialEq, Eq, Structural)]
pub struct GuiPalette {
    pub background: Color565,
    pub surface_low: Color565,
    pub surface_high: Color565,
    pub divider: Color565,
    pub text: Color565,
    pub text_subtle: Color565,
    pub accent_primary: Color565,
    pub accent_primary_light: Color565,
    pub accent_primary_dark: Color565,
    pub accent_secondary: Color565,
    pub accent_secondary_light: Color565,
    pub accent_secondary_dark: Color565,
    pub accent_info: Color565,
    pub accent_warning: Color565,
    pub keypad_border: Color565,
    pub panel_highlight: Color565,
    pub panel_shadow: Color565,
}

impl GuiPalette {
    pub open spec fn valid(self) -> bool {
        &&& self.background.valid()
        &&& self.surface_low.valid()
        &&& self.surface_high.valid()
        &&& self.divider.valid()
        &&& self.text.valid()
        &&& self.text_subtle.valid()
        &&& self.accent_primary.valid()
        &&& self.accent_primary_light.valid()
        &&& self.accent_primary_dark.valid()
        &&& self.accent_secondary.valid()
        &&& self.accent_secondary_light.valid()
        &&& self.accent_secondary_dark.valid()
        &&& self.accent_info.valid()
        &&& self.accent_warning.valid()
        &&& self.keypad_border.valid()
        &&& self.panel_highlight.valid()
        &&& self.panel_shadow.valid()
    }
}

/// The theme's number as stored in the GUI preferences.
pub open spec fn theme_id(t: Theme) -> u8 {
    match t {
        Theme::Nockster => 0,
        Theme::Solarized => 1,
        Theme::Nord => 2,
        Theme::Dracula => 3,
        Theme::Mono => 4,
        Theme::Paper => 5,
    }
}

pub open spec fn theme_of_id(id: u8) -> Option<Theme> {
    if id == 0 {
        Some(Theme::Nockster)
    } else if id == 1 {
        Some(Theme::Solarized)
    } else if id == 2 {
        Some(Theme::Nord)
    } else if id == 3 {
        Some(Theme::Dracula)
    } else if id == 4 {
        Some(Theme::Mono)
    } else if id == 5 {
        Some(Theme::Paper)
    } else {
        None
    }
}

/// The theme's display name.
pub open spec fn theme_name(t: Theme) -> Seq<char> {
    match t {
        Theme::Nockster => seq!['N', 'o', 'c', 'k', 's', 't', 'e', 'r'],
        Theme::Solarized => seq!['S', 'o', 'l', 'a', 'r', 'i', 'z', 'e', 'd'],
        Theme::Nord => seq!['N', 'o', 'r', 'd'],
        Theme::Dracula => seq!['D', 'r', 'a', 'c', 'u', 'l', 'a'],
        Theme::Mono => seq!['M', 'o', 'n', 'o'],
        Theme::Paper => seq!['P', 'a', 'p', 'e', 'r'],
    }
}

/// Themes in menu order.
pub fn themes() -> (r: Vec<Theme>)
    ensures
        r@ == seq![Theme::Nockster, Theme::Solarized, Theme::Nord, Theme::Dracula, Theme::Mono, Theme::Paper],
{
    vec![Theme::Nockster, Theme::Solarized, Theme::Nord, Theme::Dracula, Theme::Mono, Theme::Paper]
}

/// Each theme's number maps back to it, and every number below the theme
/// count names a theme whose number it is.
pub proof fn lemma_theme_id_roundtrip(t: Theme, id: u8)
    ensures
        theme_of_id(theme_id(t)) == Some(t),
        theme_id(t) < THEME_COUNT,
        theme_of_id(id) is Some <==> id < THEME_COUNT,
        theme_of_id(id) is Some ==> theme_id(theme_of_id(id)->0) == id,
{
}

impl Theme {
    pub fn id(self) -> (r: u8)
        ensures
            r == theme_id(self),
    {
        match self {
            Theme::Nockster => 0,
            Theme::Solarized => 1,
            Theme::Nord => 2,
            Theme::Dracula => 3,
            Theme::Mono => 4,
            Theme::Paper => 5,
        }
    }

    pub fn from_id(id: u8) -> (r: Option<Theme>)
        ensures
            r == theme_of_id(id),
    {
        match id {
            0 => Some(Theme::Nockster),
            1 => Some(Theme::Solarized),
            2 => Some(Theme::Nord),
            3 => Some(Theme::Dracula),
            4 => Some(Theme::Mono),
            5 => Some(Theme::Paper),
            _ => None,
        }
    }

    pub fn name(self) -> (r: &'static str)
        ensures
            r@ == theme_name(self),
    {
        match self {
            Theme::Nockster => {
                proof { reveal_strlit("Nockster"); }
                "Nockster"
            },
            Theme::Solarized => {
                proof { reveal_strlit("Solarized"); }
                "Solarized"
            },
            Theme::Nord => {
                proof { reveal_strlit("Nord"); }
                "Nord"
            },
            Theme::Dracula => {
                proof { reveal_strlit("Dracula"); }
                "Dracula"
            },
            Theme::Mono => {
                proof { reveal_strlit("Mono"); }
                "Mono"
            },
            Theme::Paper => {
                proof { reveal_strlit("Paper"); }
                "Paper"
            },
        }
    }

    /// The theme's colours.
    pub fn palette(self) -> (p: GuiPalette)
        ensures
            p == theme_palette(self),
            p.valid(),
    {
        match self {
            Theme::Nockster => GuiPalette {
                background: c(1, 3, 5),
                surface_low: c(4, 7, 9),
                surface_high: c(6, 10, 13),
                divider: c(12, 20, 20),
                text: c(30, 61, 29),
                text_subtle: c(24, 48, 24),
                accent_primary: c(0, 41, 28),
                accent_primary_light: c(7, 55, 31),
                accent_primary_dark: c(0, 24, 17),
                accent_secondary: c(24, 18, 10),
                accent_secondary_light: c(30, 25, 14),
                accent_secondary_dark: c(12, 8, 5),
                accent_info: c(7, 55, 31),
                accent_warning: c(31, 44, 7),
                keypad_border: c(14, 25, 25),
                panel_highlight: c(10, 16, 18),
                panel_shadow: c(0, 2, 3),
            },
            Theme::Solarized => GuiPalette {
                background: c(0, 10, 6),
                surface_low: c(0, 13, 8),
                surface_high: c(11, 27, 14),
                divider: c(18, 40, 19),
                text: c(29, 58, 26),
                text_subtle: c(18, 40, 19),
                accent_primary: c(5, 40, 19),
                accent_primary_light: c(13, 51, 24),
                accent_primary_dark: c(0, 26, 14),
                accent_secondary: c(25, 18, 2),
                accent_secondary_light: c(31, 34, 8),
                accent_secondary_dark: c(15, 9, 1),
                accent_info: c(4, 34, 26),
                accent_warning: c(22, 34, 0),
                keypad_border: c(7, 24, 14),
                panel_highlight: c(15, 37, 20),
                panel_shadow: c(0, 7, 5),
            },
            Theme::Nord => GuiPalette {
                background: c(5, 13, 8),
                surface_low: c(7, 16, 10),
                surface_high: c(8, 19, 11),
                divider: c(9, 21, 13),
                text: c(29, 59, 30),
                text_subtle: c(27, 55, 29),
                accent_primary: c(17, 48, 26),
                accent_primary_light: c(20, 54, 30),
                accent_primary_dark: c(9, 28, 16),
                accent_secondary: c(22, 35, 21),
                accent_secondary_light: c(28, 43, 26),
                accent_secondary_dark: c(12, 19, 12),
                accent_info: c(15, 42, 28),
                accent_warning: c(29, 50, 17),
                keypad_border: c(12, 25, 16),
                panel_highlight: c(13, 26, 17),
                panel_shadow: c(3, 8, 5),
            },
            Theme::Dracula => GuiPalette {
                background: c(5, 10, 6),
                surface_low: c(6, 13, 8),
                surface_high: c(8, 17, 11),
                divider: c(12, 28, 20),
                text: c(31, 62, 30),
                text_subtle: c(24, 49, 26),
                accent_primary: c(23, 36, 31),
                accent_primary_light: c(28, 44, 31),
                accent_primary_dark: c(13, 20, 19),
                accent_secondary: c(31, 30, 24),
                accent_secondary_light: c(31, 42, 28),
                accent_secondary_dark: c(18, 15, 14),
                accent_info: c(10, 54, 31),
                accent_warning: c(30, 62, 17),
                keypad_border: c(16, 30, 22),
                panel_highlight: c(13, 24, 16),
                panel_shadow: c(3, 6, 4),
            },
            Theme::Mono => GuiPalette {
                background: c(0, 0, 0),
                surface_low: c(2, 4, 2),
                surface_high: c(4, 8, 4),
                divider: c(11, 23, 11),
                text: c(31, 63, 31),
                text_subtle: c(22, 44, 22),
                accent_primary: c(22, 44, 22),
                accent_primary_light: c(31, 63, 31),
                accent_primary_dark: c(11, 23, 11),
                accent_secondary: c(16, 32, 16),
                accent_secondary_light: c(25, 50, 25),
                accent_secondary_dark: c(8, 16, 8),
                accent_info: c(31, 63, 31),
                accent_warning: c(28, 56, 28),
                keypad_border: c(14, 28, 14),
                panel_highlight: c(20, 40, 20),
                panel_shadow: c(0, 0, 0),
            },
            Theme::Paper => GuiPalette {
                background: c(30, 61, 30),
                surface_low: c(31, 63, 31),
                surface_high: c(31, 63, 31),
                divider: c(26, 53, 26),
                text: c(1, 3, 1),
                text_subtle: c(13, 26, 13),
                accent_primary: c(26, 53, 26),
                accent_primary_light: c(31, 63, 31),
                accent_primary_dark: c(13, 26, 13),
                accent_secondary: c(20, 40, 20),
                accent_secondary_light: c(28, 56, 28),
                accent_secondary_dark: c(8, 16, 8),
                accent_info: c(1, 3, 1),
                accent_warning: c(6, 12, 6),
                keypad_border: c(1, 3, 1),
                panel_highlight: c(31, 63, 31),
                panel_shadow: c(26, 53, 26),
            },
        }
    }
}

/// The colour table of each theme.
pub open spec fn theme_palette(t: Theme) -> GuiPalette {
    match t {
        Theme::Nockster => GuiPalette {
            background: rgb(1, 3, 5), surface_low: rgb(4, 7, 9), surface_high: rgb(6, 10, 13),
            divider: rgb(12, 20, 20), text: rgb(30, 61, 29), text_subtle: rgb(24, 48, 24),
            accent_primary: rgb(0, 41, 28), accent_primary_light: rgb(7, 55, 31),
            accent_primary_dark: rgb(0, 24, 17), accent_secondary: rgb(24, 18, 10),
            accent_secondary_light: rgb(30, 25, 14), accent_secondary_dark: rgb(12, 8, 5),
            accent_info: rgb(7, 55, 31), accent_warning: rgb(31, 44, 7),
            keypad_border: rgb(14, 25, 25), panel_highlight: rgb(10, 16, 18), panel_shadow: rgb(0, 2, 3),
        },
        Theme::Solarized => GuiPalette {
            background: rgb(0, 10, 6), surface_low: rgb(0, 13, 8), surface_high: rgb(11, 27, 14),
            divider: rgb(18, 40, 19), text: rgb(29, 58, 26), text_subtle: rgb(18, 40, 19),
            accent_primary: rgb(5, 40, 19), accent_primary_light: rgb(13, 51, 24),
            accent_primary_dark: rgb(0, 26, 14), accent_secondary: rgb(25, 18, 2),
            accent_secondary_light: rgb(31, 34, 8), accent_secondary_dark: rgb(15, 9, 1),
            accent_info: rgb(4, 34, 26), accent_warning: rgb(22, 34, 0),
            keypad_border: rgb(7, 24, 14), panel_highlight: rgb(15, 37, 20), panel_shadow: rgb(0, 7, 5),
        },
        Theme::Nord => GuiPalette {
            background: rgb(5, 13, 8), surface_low: rgb(7, 16, 10), surface_high: rgb(8, 19, 11),
            divider: rgb(9, 21, 13), text: rgb(29, 59, 30), text_subtle: rgb(27, 55, 29),
            accent_primary: rgb(17, 48, 26), accent_primary_light: rgb(20, 54, 30),
            accent_primary_dark: rgb(9, 28, 16), accent_secondary: rgb(22, 35, 21),
            accent_secondary_light: rgb(28, 43, 26), accent_secondary_dark: rgb(12, 19, 12),
            accent_info: rgb(15, 42, 28), accent_warning: rgb(29, 50, 17),
            keypad_border: rgb(12, 25, 16), panel_highlight: rgb(13, 26, 17), panel_shadow: rgb(3, 8, 5),
        },
        Theme::Dracula => GuiPalette {
            background: rgb(5, 10, 6), surface_low: rgb(6, 13, 8), surface_high: rgb(8, 17, 11),
            divider: rgb(12, 28, 20), text: rgb(31, 62, 30), text_subtle: rgb(24, 49, 26),
            accent_primary: rgb(23, 36, 31), accent_primary_light: rgb(28, 44, 31),
            accent_primary_dark: rgb(13, 20, 19), accent_secondary: rgb(31, 30, 24),
            accent_secondary_light: rgb(31, 42, 28), accent_secondary_dark: rgb(18, 15, 14),
            accent_info: rgb(10, 54, 31), accent_warning: rgb(30, 62, 17),
            keypad_border: rgb(16, 30, 22), panel_highlight: rgb(13, 24, 16), panel_shadow: rgb(3, 6, 4),
        },
        Theme::Mono => GuiPalette {
            background: rgb(0, 0, 0), surface_low: rgb(2, 4, 2), surface_high: rgb(4, 8, 4),
            divider: rgb(11, 23, 11), text: rgb(31, 63, 31), text_subtle: rgb(22, 44, 22),
            accent_primary: rgb(22, 44, 22), accent_primary_light: rgb(31, 63, 31),
            accent_primary_dark: rgb(11, 23, 11), accent_secondary: rgb(16, 32, 16),
            accent_secondary_light: rgb(25, 50, 25), accent_secondary_dark: rgb(8, 16, 8),
            accent_info: rgb(31, 63, 31), accent_warning: rgb(28, 56, 28),
            keypad_border: rgb(14, 28, 14), panel_highlight: rgb(20, 40, 20), panel_shadow: rgb(0, 0, 0),
        },
        Theme::Paper => GuiPalette {
            background: rgb(30, 61, 30), surface_low: rgb(31, 63, 31), surface_high: rgb(31, 63, 31),
            divider: rgb(26, 53, 26), text: rgb(1, 3, 1), text_subtle: rgb(13, 26, 13),
            accent_primary: rgb(26, 53, 26), accent_primary_light: rgb(31, 63, 31),
            accent_primary_dark: rgb(13, 26, 13), accent_secondary: rgb(20, 40, 20),
            accent_secondary_light: rgb(28, 56, 28), accent_secondary_dark: rgb(8, 16, 8),
            accent_info: rgb(1, 3, 1), accent_warning: rgb(6, 12, 6),
            keypad_border: rgb(1, 3, 1), panel_highlight: rgb(31, 63, 31), panel_shadow: rgb(26, 53, 26),
        },
    }
}

/// The selected theme, kept as its stored number.
pub struct ThemeSetting {
    id: u8,
}

impl ThemeSetting {
    /// Starts on the default theme.
    pub fn new() -> (s: Self)
        ensures
            s.id_view() == theme_id(Theme::Nockster),
    {
        ThemeSetting { id: 0 }
    }

    pub closed spec fn id_view(&self) -> u8 {
        self.id
    }
}

/// The selected theme; a number that names no theme falls back to the default.
pub fn current_theme(setting: &ThemeSetting) -> (t: Theme)
    ensures
        t == (match theme_of_id(setting.id_view()) {
            Some(t) => t,
            None => Theme::Nockster,
        }),
{
    match Theme::from_id(setting.id) {
        Some(t) => t,
        None => Theme::Nockster,
    }
}

pub fn set_theme(setting: &mut ThemeSetting, theme: Theme)
    ensures
        final(setting).id_view() == theme_id(theme),
{
    setting.id = theme.id();
}

/// The colours of the selected theme.
pub fn colors(setting: &ThemeSetting) -> (p: GuiPalette)
    ensures
        p == theme_palette(current_theme_spec(setting.id_view())),
{
    current_theme(setting).palette()
}

pub open spec fn current_theme_spec(id: u8) -> Theme {
    match theme_of_id(id) {
        Some(t) => t,
        None => Theme::Nockster,
    }
}

/// Setting a theme and reading it back gives that theme.
pub proof fn lemma_set_then_current(theme: Theme)
    ensures
        current_theme_spec(theme_id(theme)) == theme,
{
}

// The colour of each drawing role under the selected theme; several roles
// share a palette entry.

pub fn background(setting: &ThemeSetting) -> (c: Color565)
    ensures
        c == theme_palette(current_theme_spec(setting.id_view())).background,
{
    colors(setting).background
}

pub fn surface_low(setting: &ThemeSetting) -> (c: Color565)
    ensures
        c == theme_palette(current_theme_spec(setting.id_view())).surface_low,
{
    colors(setting).surface_low
}

pub fn surface_high(setting: &ThemeSetting) -> (c: Color565)
    ensures
        c == theme_palette(current_theme_spec(setting.id_view())).surface_high,
{
    colors(setting).surface_high
}

pub fn divider(setting: &ThemeSetting) -> (c: Color565)
    ensures
        c == theme_palette(current_theme_spec(setting.id_view())).divider,
{
    colors(setting).divider
}

pub fn text(setting: &ThemeSetting) -> (c: Color565)
    ensures
        c == theme_palette(current_theme_spec(setting.id_view())).text,
{
    colors(setting).text
}

pub fn text_subtle(setting: &ThemeSetting) -> (c: Color565)
    ensures
        c == theme_palette(current_theme_spec(setting.id_view())).text_subtle,
{
    colors(setting).text_subtle
}

pub fn accent_primary(setting: &ThemeSetting) -> (c: Color565)
    ensures
        c == theme_palette(current_theme_spec(setting.id_view())).accent_primary,
{
    colors(setting).accent_primary
}

pub fn accent_primary_light(setting: &ThemeSetting) -> (c: Color565)
    ensures
        c == theme_palette(current_theme_spec(setting.id_view())).accent_primary_light,
{
    colors(setting).accent_primary_light
}

pub fn accent_primary_dark(setting: &ThemeSetting) -> (c: Color565)
    ensures
        c == theme_palette(current_theme_spec(setting.id_view())).accent_primary_dark,
{
    colors(setting).accent_primary_dark
}

pub fn accent_secondary(setting: &ThemeSetting) -> (c: Color565)
    ensures
        c == theme_palette(current_theme_spec(setting.id_view())).accent_secondary,
{
    colors(setting).accent_secondary
}

pub fn accent_secondary_light(setting: &ThemeSetting) -> (c: Color565)
    ensures
        c == theme_palette(current_theme_spec(setting.id_view())).accent_secondary_light,
{
    colors(setting).accent_secondary_light
}

pub fn accent_secondary_dark(setting: &ThemeSetting) -> (c: Color565)
    ensures
        c == theme_palette(current_theme_spec(setting.id_view())).accent_secondary_dark,
{
    colors(setting).accent_secondary_dark
}

pub fn accent_info(setting: &ThemeSetting) -> (c: Color565)
    ensures
        c == theme_palette(current_theme_spec(setting.id_view())).accent_info,
{
    colors(setting).accent_info
}

pub fn accent_warning(setting: &ThemeSetting) -> (c: Color565)
    ensures
        c == theme_palette(current_theme_spec(setting.id_view())).accent_warning,
{
    colors(setting).accent_warning
}

pub fn keypad_idle(setting: &ThemeSetting) -> (c: Color565)
    ensures
        c == theme_palette(current_theme_spec(setting.id_view())).surface_low,
{
    colors(setting).surface_low
}

pub fn keypad_active(setting: &ThemeSetting) -> (c: Color565)
    ensures
        c == theme_palette(current_theme_spec(setting.id_view())).accent_primary,
{
    colors(setting).accent_primary
}

pub fn keypad_active_light(setting: &ThemeSetting) -> (c: Color565)
    ensures
        c == theme_palette(current_theme_spec(setting.id_view())).accent_primary_light,
{
    colors(setting).accent_primary_light
}

pub fn keypad_active_dark(setting: &ThemeSetting) -> (c: Color565)
    ensures
        c == theme_palette(current_theme_spec(setting.id_view())).accent_primary_dark,
{
    colors(setting).accent_primary_dark
}

pub fn keypad_border(setting: &ThemeSetting) -> (c: Color565)
    ensures
        c == theme_palette(current_theme_spec(setting.id_view())).keypad_border,
{
    colors(setting).keypad_border
}

pub fn panel_base(setting: &ThemeSetting) -> (c: Color565)
    ensures
        c == theme_palette(current_theme_spec(setting.id_view())).surface_high,
{
    colors(setting).surface_high
}

pub fn panel_highlight(setting: &ThemeSetting) -> (c: Color565)
    ensures
        c == theme_palette(current_theme_spec(setting.id_view())).panel_highlight,
{
    colors(setting).panel_highlight
}

pub fn panel_shadow(setting: &ThemeSetting) -> (c: Color565)
    ensures
        c == theme_palette(current_theme_spec(setting.id_view())).panel_shadow,
{
    colors(setting).panel_shadow
}

pub fn panel_border(setting: &ThemeSetting) -> (c: Color565)
    ensures
        c == theme_palette(current_theme_spec(setting.id_view())).divider,
{
    colors(setting).divider
}

pub fn btn_primary_base(setting: &ThemeSetting) -> (c: Color565)
    ensures
        c == theme_palette(current_theme_spec(setting.id_view())).accent_primary,
{
    colors(setting).accent_primary
}

pub fn btn_primary_light(setting: &ThemeSetting) -> (c: Color565)
    ensures
        c == theme_palette(current_theme_spec(setting.id_view())).accent_primary_light,
{
    colors(setting).accent_primary_light
}

pub fn btn_primary_dark(setting: &ThemeSetting) -> (c: Color565)
    ensures
        c == theme_palette(current_theme_spec(setting.id_view())).accent_primary_dark,
{
    colors(setting).accent_primary_dark
}

pub fn btn_secondary_base(setting: &ThemeSetting) -> (c: Color565)
    ensures
        c == theme_palette(current_theme_spec(setting.id_view())).accent_secondary,
{
    colors(setting).accent_secondary
}

pub fn btn_secondary_light(setting: &ThemeSetting) -> (c: Color565)
    ensures
        c == theme_palette(current_theme_spec(setting.id_view())).accent_secondary_light,
{
    colors(setting).accent_secondary_light
}

pub fn btn_secondary_dark(setting: &ThemeSetting) -> (c: Color565)
    ensures
        c == theme_palette(current_theme_spec(setting.id_view())).accent_secondary_dark,
{
    colors(setting).accent_secondary_dark
}

pub fn btn_disabled_base(setting: &ThemeSetting) -> (c: Color565)
    ensures
        c == theme_palette(current_theme_spec(setting.id_view())).surface_low,
{
    colors(setting).surface_low
}

pub fn btn_disabled_light(setting: &ThemeSetting) -> (c: Color565)
    ensures
        c == theme_palette(current_theme_spec(setting.id_view())).surface_high,
{
    colors(setting).surface_high
}

pub fn btn_disabled_dark(setting: &ThemeSetting) -> (c: Color565)
    ensures
        c == theme_palette(current_theme_spec(setting.id_view())).background,
{
    colors(setting).background
}

} // verus!
