//! The value that is kept in step: light or dark.

use crate::text::same_text;
use vstd::prelude::*;
use vstd::string::*;

verus! {

/// The two appearances a consumer can be asked to show.
#[allow(non_camel_case_types)]
#[derive(Clone, Copy, Debug, PartialEq, Eq, Structural)]
pub enum Theme {
    LIGHT,
    DARK,
}

impl Theme {
    /// The lowercase word that stands for the theme wherever it is written
    /// out: `light` or `dark`.
    pub open spec fn literal(self) -> Seq<char> {
        match self {
            Theme::LIGHT => seq!['l', 'i', 'g', 'h', 't'],
            Theme::DARK => seq!['d', 'a', 'r', 'k'],
        }
    }

    /// The theme's word as a string slice.
    pub fn as_str(&self) -> (word: &'static str)
        ensures
            word@ == self.literal(),
    {
        proof {
            reveal_strlit("light");
            reveal_strlit("dark");
            assert("light"@ =~= seq!['l', 'i', 'g', 'h', 't']);
            assert("dark"@ =~= seq!['d', 'a', 'r', 'k']);
        }
        match self {
            Theme::LIGHT => "light",
            Theme::DARK => "dark",
        }
    }

    /// The theme's word as an owned string.
    pub fn to_string(&self) -> (word: String)
        ensures
            word@ == self.literal(),
    {
        String::from_str(self.as_str())
    }
}

/// The theme that a word stands for, if it is one of the two literals.
/// Nothing else is a theme: not another case, not a word with spaces round it.
pub open spec fn theme_of(word: Seq<char>) -> Option<Theme> {
    if word == Theme::LIGHT.literal() {
        Some(Theme::LIGHT)
    } else if word == Theme::DARK.literal() {
        Some(Theme::DARK)
    } else {
        None
    }
}

/// Reading a theme's own word gives the theme back.
pub proof fn literal_round_trip(theme: Theme)
    ensures
        theme_of(theme.literal()) == Some(theme),
{
    assert(Theme::LIGHT.literal()[0] == 'l');
    assert(Theme::DARK.literal()[0] == 'd');
}

/// Reads a word as a theme, or `None` where the word is neither literal.
pub fn parse_theme(value: &str) -> (theme: Option<Theme>)
    ensures
        theme == theme_of(value@),
{
    if same_text(value, Theme::LIGHT.as_str()) {
        Some(Theme::LIGHT)
    } else if same_text(value, Theme::DARK.as_str()) {
        Some(Theme::DARK)
    } else {
        None
    }
}

/// Converts the string representation of a theme to the theme.
///
/// The caller vouches that the word is one of the two literals; use
/// [`parse_theme`] for text of unknown origin.
pub fn to_theme(value: &str) -> (theme: Theme)
    requires
        theme_of(value@) is Some,
    ensures
        theme_of(value@) == Some(theme),
{
    if same_text(value, Theme::LIGHT.as_str()) {
        Theme::LIGHT
    } else {
        Theme::DARK
    }
}

} // verus!
