//! The publisher behind the desktop settings portal, which reports the
//! colour scheme as an integer.

use super::ThemePublisher;
use crate::text::same_text;
use crate::theme::Theme;
use vstd::prelude::*;

verus! {

/// The publisher for the settings portal on the session bus.
#[derive(Clone, Copy, Debug)]
pub struct DBusPublisher;

impl DBusPublisher {
    pub fn new() -> DBusPublisher {
        DBusPublisher {  }
    }

    /// Whether a settings signal is about the colour scheme: the namespace
    /// and the key must both be the monitored ones.
    pub open spec fn is_monitored(namespace: Seq<char>, key: Seq<char>) -> bool {
        namespace == "org.freedesktop.appearance"@ && key == "color-scheme"@
    }

    /// Picks out of one settings signal the value to act on: the integer it
    /// carries, if the signal is about the colour scheme and carries one.
    /// Signals about other settings give nothing.
    pub fn monitored_value(namespace: &str, key: &str, value: Option<i64>) -> (change: Option<i64>)
        ensures
            change == (if Self::is_monitored(namespace@, key@) {
                value
            } else {
                None
            }),
    {
        if same_text(namespace, "org.freedesktop.appearance") && same_text(key, "color-scheme") {
            value
        } else {
            None
        }
    }
}

impl ThemePublisher<i64> for DBusPublisher {
    /// The portal's code 1 asks for dark; every other code is light.
    open spec fn theme_for(self, value: i64) -> Theme {
        if value == 1 {
            Theme::DARK
        } else {
            Theme::LIGHT
        }
    }

    fn to_theme(self, value: i64) -> (theme: Theme) {
        if value == 1 {
            return Theme::DARK;
        }
        return Theme::LIGHT;
    }
}

} // verus!
