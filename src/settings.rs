//! The editor's user settings and their defaults.
use vstd::prelude::*;
use crate::text::same_text;

verus! {

/// The colour theme.
#[derive(Debug, PartialEq, Eq, Clone, Copy)]
pub enum Theme {
    System,
    Dark,
    Light,
}

/// The user's settings.
pub struct Settings {
    pub theme: Theme,
    pub preferred_language: String,
    pub wrap_lines: bool,
}

/// The chars of the default language.
pub open spec fn default_language() -> Seq<char> {
    "markdown"@
}

/// The language of a new document where none is stored.
pub fn settings_default_preferred_language() -> (r: String)
    ensures
        r@ == default_language(),
{
    String::from_str("markdown")
}

/// Whether lines wrap where nothing is stored.
pub fn settings_default_wrap_lines() -> (r: bool)
    ensures
        r == false,
{
    false
}

/// The theme a name selects: `Light`, `Dark`, and the system theme for any other name.
pub fn theme_from_name(name: &str) -> (r: Theme)
    ensures
        name@ == "Light"@ ==> r == Theme::Light,
        name@ == "Dark"@ ==> r == Theme::Dark,
        name@ != "Light"@ && name@ != "Dark"@ ==> r == Theme::System,
{
    proof {
        reveal_strlit("Light");
        reveal_strlit("Dark");
        assert("Light"@[0] != "Dark"@[0]);
    }
    if same_text(name, "Light") {
        Theme::Light
    } else if same_text(name, "Dark") {
        Theme::Dark
    } else {
        Theme::System
    }
}

impl Default for Settings {
    fn default() -> (r: Settings)
        ensures
            r.theme == Theme::System,
            r.preferred_language@ == default_language(),
            r.wrap_lines == false,
    {
        Settings {
            theme: Theme::System,
            preferred_language: settings_default_preferred_language(),
            wrap_lines: settings_default_wrap_lines(),
        }
    }
}

} // verus!
