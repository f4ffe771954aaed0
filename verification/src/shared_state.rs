//! The single value that every session reads and the source's callback
//! writes: a latest-value slot with a count of the notifications sent.
//!
//! The slot itself never blocks.  Whoever shares it between threads keeps it
//! behind a lock, wakes every waiter after each [`SharedThemeState::set`],
//! and lets each waiter ask [`SharedThemeState::wait_for_change`] whenever
//! it wakes, for whatever reason.

use crate::theme::Theme;
use crate::theme_publisher::{SourceError, ThemePublisher};
use vstd::prelude::*;

verus! {

/// What a shared state holds, as plain values.
pub struct SharedView {
    /// The current theme.
    pub value: Theme,
    /// How many times the value has been set since the state was made.
    pub notifications: nat,
}

impl SharedView {
    /// The state after one `set`.
    pub open spec fn set(self, theme: Theme) -> SharedView {
        SharedView { value: theme, notifications: self.notifications + 1 }
    }

    /// The state after a series of `set` calls, in order.
    pub open spec fn set_all(self, themes: Seq<Theme>) -> SharedView
        decreases themes.len(),
    {
        if themes.len() == 0 {
            self
        } else {
            self.set_all(themes.drop_last()).set(themes.last())
        }
    }

    /// Whether a reader has something to report: the value is not the one it
    /// saw last, or the value has been set since its wait began.
    pub open spec fn changed(self, last_seen: Theme, since: nat) -> bool {
        self.value != last_seen || self.notifications != since
    }

    /// What one look at the state gives a waiting reader: the current value
    /// if there is something to report, and nothing if it has to go on
    /// waiting.
    pub open spec fn wake(self, last_seen: Theme, since: nat) -> Option<Theme> {
        if self.changed(last_seen, since) {
            Some(self.value)
        } else {
            None
        }
    }
}

/// A set releases every reader that is waiting: whatever a reader saw last,
/// if its wait began before the set, its next look gives the value that was
/// set.
pub proof fn a_set_releases_every_reader(
    shared: SharedView,
    theme: Theme,
    last_seen: Theme,
    since: nat,
)
    requires
        since <= shared.notifications,
    ensures
        shared.set(theme).wake(last_seen, since) == Some(theme),
{
}

/// A reader that wakes although nothing was set since its wait began, and
/// that has seen the current value, gets nothing: it has to block again and
/// sends no message twice.
pub proof fn a_wake_for_nothing_reports_nothing(shared: SharedView)
    ensures
        shared.wake(shared.value, shared.notifications) is None,
{
}

/// The theme a server starts with: the one the source gave, or dark where
/// the source gave none.
pub open spec fn seed(fetched: Result<Theme, SourceError>) -> Theme {
    match fetched {
        Ok(theme) => theme,
        Err(_) => Theme::DARK,
    }
}

/// One theme, overwritten by its single writer and read by any number of
/// readers.
#[derive(Debug)]
pub struct SharedThemeState {
    value: Theme,
    notifications: u64,
}

impl View for SharedThemeState {
    type V = SharedView;

    closed spec fn view(&self) -> SharedView {
        SharedView { value: self.value, notifications: self.notifications as nat }
    }
}

impl SharedThemeState {
    /// A state that holds the given theme and has notified nobody yet.
    pub fn new(initial: Theme) -> (state: SharedThemeState)
        ensures
            state@ == (SharedView { value: initial, notifications: 0 }),
    {
        SharedThemeState { value: initial, notifications: 0 }
    }

    /// A state that holds the given theme and has already counted the given
    /// number of notifications.
    pub fn resumed(value: Theme, notifications: u64) -> (state: SharedThemeState)
        ensures
            state@ == (SharedView { value, notifications: notifications as nat }),
    {
        SharedThemeState { value, notifications }
    }

    /// A state seeded with what the source fetched at startup.  A failed
    /// fetch does not stop the server: the state then starts out dark.
    pub fn seeded(fetched: Result<Theme, SourceError>) -> (state: SharedThemeState)
        ensures
            state@ == (SharedView { value: seed(fetched), notifications: 0 }),
    {
        match fetched {
            Ok(theme) => SharedThemeState::new(theme),
            Err(_) => SharedThemeState::new(Theme::DARK),
        }
    }

    /// Whether the state can still count one more notification.
    pub fn can_set(&self) -> (room: bool)
        ensures
            room == (self@.notifications < u64::MAX),
    {
        self.notifications < u64::MAX
    }

    /// Overwrites the value and counts the notification that goes with it.
    pub fn set(&mut self, theme: Theme)
        requires
            old(self)@.notifications < u64::MAX,
        ensures
            final(self)@ == old(self)@.set(theme),
    {
        self.value = theme;
        self.notifications = self.notifications + 1;
    }

    /// The current value.
    pub fn snapshot(&self) -> (theme: Theme)
        ensures
            theme == self@.value,
    {
        self.value
    }

    /// The number of notifications so far: what a reader notes down when
    /// its wait begins.
    pub fn notifications(&self) -> (count: u64)
        ensures
            count == self@.notifications,
    {
        self.notifications
    }

    /// One look at the state on behalf of a reader that saw `last_seen` last
    /// and began to wait when the count of notifications was `since`.
    /// Returns the current value if the wait is over, and `None` if the
    /// reader woke for nothing and has to block again.
    pub fn wait_for_change(&self, last_seen: Theme, since: u64) -> (theme: Option<Theme>)
        ensures
            theme == self@.wake(last_seen, since as nat),
    {
        if self.value != last_seen || self.notifications != since {
            Some(self.value)
        } else {
            None
        }
    }
}

/// What became of one notification from a source.
#[derive(Clone, Copy, Debug, PartialEq, Eq, Structural)]
pub enum Listened {
    /// The notification carried nothing to publish; the state is untouched.
    Ignored,
    /// The theme was written to the state: every waiter has to be woken.
    Published(Theme),
    /// The state has counted as many notifications as it can and was left
    /// untouched: the watch cannot go on.
    Exhausted,
}

/// What one notification does to the shared state, and what is reported.
pub open spec fn listened<A: ThemePublisher<B>, B>(
    publisher: A,
    shared: SharedView,
    change: Option<B>,
) -> (SharedView, Listened) {
    match change {
        None => (shared, Listened::Ignored),
        Some(value) => if shared.notifications < u64::MAX {
            (
                shared.set(publisher.theme_for(value)),
                Listened::Published(publisher.theme_for(value)),
            )
        } else {
            (shared, Listened::Exhausted)
        },
    }
}

/// Handles one notification from a source on behalf of the server: the
/// publisher decides what it amounts to, and a change is written to the
/// shared state.
pub fn listen_theme<A, B>(publisher: A, shared: &mut SharedThemeState, change: Option<B>) -> (outcome:
    Listened) where A: ThemePublisher<B>
    ensures
        (final(shared)@, outcome) == listened(publisher, old(shared)@, change),
{
    match publisher.on_publish(change) {
        Some(theme) => {
            if shared.can_set() {
                shared.set(theme);
                Listened::Published(theme)
            } else {
                Listened::Exhausted
            }
        },
        None => Listened::Ignored,
    }
}

} // verus!
