//! Color theme selection and the generated style sheet.
use vstd::prelude::*;

use crate::text::{concat, decimal, decimal_string};

verus! {

/// The application's color theme.
#[derive(Debug, Clone, Copy, PartialEq, Eq)]
pub enum ColorTheme {
    /// Light colors.
    Light,
    /// Dark colors.
    Dark,
    /// Follow the operating system's preference.
    System,
}

/// Whether the dark style sheet is used for `theme` when the operating
/// system does (`system_prefers_dark`) or does not prefer dark mode.
pub open spec fn dark_for(theme: ColorTheme, system_prefers_dark: bool) -> bool {
    match theme {
        ColorTheme::Light => false,
        ColorTheme::Dark => true,
        ColorTheme::System => system_prefers_dark,
    }
}

/// Returns whether the dark style sheet is used for `theme`.
pub fn uses_dark_css(theme: ColorTheme, system_prefers_dark: bool) -> (r: bool)
    ensures
        r == dark_for(theme, system_prefers_dark),
{
    match theme {
        ColorTheme::Light => false,
        ColorTheme::Dark => true,
        ColorTheme::System => system_prefers_dark,
    }
}

/// The complete style sheet: the theme's rules followed by a rule that
/// sets the font size of everything.
pub open spec fn css_with_font(theme_css: Seq<char>, font_size: u32) -> Seq<char> {
    theme_css + "\n* { font-size: "@ + decimal(font_size as nat) + "pt; }"@
}

/// Generates the complete CSS by combining theme styles with font rules.
pub fn generate_css(theme_css: &str, font_size: u32) -> (r: String)
    ensures
        r@ == css_with_font(theme_css@, font_size),
{
    let head = concat(theme_css, "\n* { font-size: ");
    let with_size = concat(head.as_str(), decimal_string(font_size as u64).as_str());
    let r = concat(with_size.as_str(), "pt; }");
    assert(r@ =~= css_with_font(theme_css@, font_size));
    r
}

} // verus!
