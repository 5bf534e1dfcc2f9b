//! App-wide settings (theme, refresh interval).

use vstd::prelude::*;
use crate::text::same_text;

verus! {

#[derive(Debug, Clone, PartialEq)]
pub struct Settings {
    /// "dark" | "light" | "system".
    pub theme: String,
    pub refresh_interval_secs: u32,
}

/// The themes the app offers: `dark`, `light`, `system`.
pub open spec fn known_theme(theme: Seq<char>) -> bool {
    theme == "dark"@ || theme == "light"@ || theme == "system"@
}

/// Exactly three themes are offered; a text that merely starts with one of
/// them is none.
pub proof fn lemma_known_themes_are_exact(theme: Seq<char>, rest: Seq<char>)
    ensures
        known_theme(theme) <==> set!["dark"@, "light"@, "system"@].contains(theme),
        rest.len() > 0 ==> !known_theme("dark"@ + rest) && !known_theme("light"@ + rest)
            && !known_theme("system"@ + rest),
{
    reveal_strlit("dark");
    reveal_strlit("light");
    reveal_strlit("system");
    if rest.len() > 0 {
        assert(("dark"@ + rest)[0] == 'd');
        assert(("light"@ + rest)[0] == 'l');
        assert(("system"@ + rest)[0] == 's');
        assert(("system"@ + rest).len() > 6);
        assert(("light"@ + rest).len() > 5);
        assert(("dark"@ + rest).len() > 4);
    }
}

impl Default for Settings {
    fn default() -> (r: Self)
        ensures
            r.theme@ == "system"@,
            r.refresh_interval_secs == 10,
    {
        Settings { theme: "system".to_owned(), refresh_interval_secs: 10 }
    }
}

/// Whether `theme` is one of the themes the app offers.
pub fn is_known_theme(theme: &str) -> (r: bool)
    ensures
        r == known_theme(theme@),
{
    same_text(theme, "dark") || same_text(theme, "light") || same_text(theme, "system")
}

/// `settings` with a theme the app offers: a theme other than `dark`,
/// `light` or `system` becomes `system`; the refresh interval is kept.
pub fn with_known_theme(settings: Settings) -> (r: Settings)
    ensures
        known_theme(r.theme@),
        known_theme(settings.theme@) ==> r == settings,
        !known_theme(settings.theme@) ==> r.theme@ == "system"@,
        r.refresh_interval_secs == settings.refresh_interval_secs,
{
    if is_known_theme(settings.theme.as_str()) {
        settings
    } else {
        Settings { theme: "system".to_owned(), refresh_interval_secs: settings.refresh_interval_secs }
    }
}

/// The settings in effect: those stored, with an unknown theme read as
/// `system`; the defaults where nothing is stored yet. The theme in effect
/// is always one the app offers.
pub fn load(stored: Option<Settings>) -> (r: Settings)
    ensures
        known_theme(r.theme@),
        stored matches Some(s) ==> r.refresh_interval_secs == s.refresh_interval_secs,
        stored matches Some(s) ==> (known_theme(s.theme@) ==> r == s),
        stored matches Some(s) ==> (!known_theme(s.theme@) ==> r.theme@ == "system"@),
        stored is None ==> r.theme@ == "system"@ && r.refresh_interval_secs == 10,
{
    match stored {
        Some(s) => with_known_theme(s),
        None => Settings::default(),
    }
}

} // verus!
