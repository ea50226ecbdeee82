//! The choice of a colour theme.
use crate::text::str_equal;
use vstd::prelude::*;

verus! {

/// The themes there are.
#[derive(Debug, Clone, Copy, PartialEq, Eq, Structural)]
pub enum ThemeChoice {
    Light,
    HighContrast,
    Dark,
}

/// The theme with a name; any other name stands for the dark one.
pub open spec fn theme_named(name: Seq<char>) -> ThemeChoice {
    if name == "light"@ {
        ThemeChoice::Light
    } else if name == "high-contrast"@ {
        ThemeChoice::HighContrast
    } else {
        ThemeChoice::Dark
    }
}

/// The theme with a name.
pub fn resolve_theme(name: &str) -> (out: ThemeChoice)
    ensures
        out == theme_named(name@),
{
    if str_equal(name, "light") {
        ThemeChoice::Light
    } else if str_equal(name, "high-contrast") {
        ThemeChoice::HighContrast
    } else {
        ThemeChoice::Dark
    }
}

/// Two names have themes of their own; every other name means the dark one.
pub proof fn law_themes_go_by_name(name: Seq<char>)
    ensures
        theme_named(name) is Light <==> name == "light"@,
        theme_named(name) is HighContrast <==> name == "high-contrast"@,
{
    reveal_strlit("light");
    reveal_strlit("high-contrast");
    assert("light"@.len() != "high-contrast"@.len());
}

} // verus!
