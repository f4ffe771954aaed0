//! The source side: what the operating system said, and how a publisher
//! turns it into a theme.

use crate::theme::Theme;
use vstd::prelude::*;

pub mod linux;
pub mod macos;

verus! {

/// Why a source has no theme to give.
#[derive(Clone, Copy, Debug, PartialEq, Eq, Structural)]
pub enum SourceError {
    /// The operating system's service could not be reached.
    SourceUnavailable,
    /// The service answered with something that is no appearance value.
    MalformedValue,
}

/// What came back when the operating system was asked for its appearance.
#[derive(Debug)]
pub enum Reading<T> {
    /// The service could not be reached.
    Unavailable,
    /// The service answered, but not with a value of the expected kind.
    Malformed,
    /// The service answered with this raw value.
    Value(T),
}

/// The rule by which a source's raw value becomes a theme, and what follows
/// from the rule for a one-shot read and for a change notification.
///
/// The rule is a function: the same raw value always gives the same theme,
/// and every raw value gives one.
pub trait ThemePublisher<T>: Sized {
    /// The theme that a raw value stands for.
    spec fn theme_for(self, value: T) -> Theme;

    /// Converts the publisher's raw value to a theme.
    fn to_theme(self, value: T) -> (theme: Theme)
        ensures
            theme == self.theme_for(value),
    ;

    /// Decides what a one-shot read amounts to: the theme of the value that
    /// was read, or the reason why there is none.
    fn fetch(self, reading: Reading<T>) -> (theme: Result<Theme, SourceError>)
        ensures
            theme == (match reading {
                Reading::Unavailable => Err::<Theme, SourceError>(SourceError::SourceUnavailable),
                Reading::Malformed => Err(SourceError::MalformedValue),
                Reading::Value(value) => Ok(self.theme_for(value)),
            }),
    {
        match reading {
            Reading::Unavailable => Err(SourceError::SourceUnavailable),
            Reading::Malformed => Err(SourceError::MalformedValue),
            Reading::Value(value) => Ok(self.to_theme(value)),
        }
    }

    /// Decides what one notification amounts to: the theme to publish for a
    /// change of the monitored setting, and nothing for a notification that
    /// carried no usable value.
    fn on_publish(self, change: Option<T>) -> (theme: Option<Theme>)
        ensures
            theme == (match change {
                Some(value) => Some(self.theme_for(value)),
                None => None::<Theme>,
            }),
    {
        match change {
            Some(value) => Some(self.to_theme(value)),
            None => None,
        }
    }
}

} // verus!
