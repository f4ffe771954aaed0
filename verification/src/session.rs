//! One connected client, as the server sees it: what to send, when to wait
//! and when to give up.
//!
//! A session never touches a socket.  It is told what happened (a write went
//! through or failed, the thread woke) and answers with what to do next.

use crate::shared_state::{SharedThemeState, SharedView};
use crate::theme::Theme;
use vstd::prelude::*;

verus! {

/// Where a session stands.
#[derive(Clone, Copy, Debug, PartialEq, Eq, Structural)]
pub enum SessionPhase {
    /// Accepted; the first message has not gone out yet.
    Connected,
    /// The first message went out; further ones follow as the value changes.
    Streaming,
    /// A write failed.  Nothing is sent any more.
    Closed,
}

/// What the owner of a session has to do next.
#[derive(Clone, Copy, Debug, PartialEq, Eq, Structural)]
pub enum SessionAction {
    /// Write this theme to the client and report how the write went.
    Send(Theme),
    /// Block until woken, then ask again.
    Wait,
    /// Release the socket and end the session's thread.
    Close,
}

/// What a session holds, as plain values.
pub struct SessionView {
    pub phase: SessionPhase,
    /// The theme that was handed out last.
    pub last_sent: Theme,
    /// The count of notifications when the current wait began.
    pub since: nat,
}

impl SessionView {
    /// The session made when a client is accepted: it owes the client the
    /// value that the shared state holds at that moment.
    pub open spec fn connect(shared: SharedView) -> SessionView {
        SessionView {
            phase: SessionPhase::Connected,
            last_sent: shared.value,
            since: shared.notifications,
        }
    }

    /// The session after a write has ended.  A failed write closes it.
    /// After a good write a new wait begins at once: if the value has moved
    /// on while the write was under way the current value is sent next,
    /// else the session waits.
    pub open spec fn sent(self, shared: SharedView, delivered: bool) -> (
        SessionView,
        SessionAction,
    ) {
        if self.phase is Closed {
            (self, SessionAction::Close)
        } else if !delivered {
            (SessionView { phase: SessionPhase::Closed, ..self }, SessionAction::Close)
        } else if shared.value != self.last_sent {
            (
                SessionView {
                    phase: SessionPhase::Streaming,
                    last_sent: shared.value,
                    since: shared.notifications,
                },
                SessionAction::Send(shared.value),
            )
        } else {
            (
                SessionView { phase: SessionPhase::Streaming, since: shared.notifications, ..self },
                SessionAction::Wait,
            )
        }
    }

    /// The session after its thread woke up.  While the first message is
    /// still owed it is asked for again; a streaming session sends the
    /// current value if the wait is over and waits on otherwise; a closed
    /// session stays closed.
    pub open spec fn woken(self, shared: SharedView) -> (SessionView, SessionAction) {
        match self.phase {
            SessionPhase::Connected => (self, SessionAction::Send(self.last_sent)),
            SessionPhase::Streaming => match shared.wake(self.last_sent, self.since) {
                Some(theme) => (
                    SessionView { last_sent: theme, ..self },
                    SessionAction::Send(theme),
                ),
                None => (self, SessionAction::Wait),
            },
            SessionPhase::Closed => (self, SessionAction::Close),
        }
    }
}

/// The server's side of one client connection.
#[derive(Debug)]
pub struct ClientSession {
    phase: SessionPhase,
    last_sent: Theme,
    since: u64,
}

impl View for ClientSession {
    type V = SessionView;

    closed spec fn view(&self) -> SessionView {
        SessionView { phase: self.phase, last_sent: self.last_sent, since: self.since as nat }
    }
}

impl ClientSession {
    /// Makes the session for a client that has just been accepted, together
    /// with the first message to send: the value the shared state holds now.
    pub fn connect(shared: &SharedThemeState) -> (accepted: (ClientSession, Theme))
        ensures
            accepted.0@ == SessionView::connect(shared@),
            accepted.1 == shared@.value,
    {
        let first = shared.snapshot();
        (
            ClientSession {
                phase: SessionPhase::Connected,
                last_sent: first,
                since: shared.notifications(),
            },
            first,
        )
    }

    /// Where the session stands.
    pub fn phase(&self) -> (phase: SessionPhase)
        ensures
            phase == self@.phase,
    {
        self.phase
    }

    /// Tells the session that the write of its last message has ended, and
    /// how.  See [`SessionView::sent`].
    pub fn sent(&mut self, shared: &SharedThemeState, delivered: bool) -> (action: SessionAction)
        ensures
            (final(self)@, action) == old(self)@.sent(shared@, delivered),
    {
        if self.phase == SessionPhase::Closed {
            SessionAction::Close
        } else if !delivered {
            self.phase = SessionPhase::Closed;
            SessionAction::Close
        } else {
            self.phase = SessionPhase::Streaming;
            self.since = shared.notifications();
            let current = shared.snapshot();
            if current != self.last_sent {
                self.last_sent = current;
                SessionAction::Send(current)
            } else {
                SessionAction::Wait
            }
        }
    }

    /// Tells the session that its thread woke up, for whatever reason.  See
    /// [`SessionView::woken`].
    pub fn woken(&mut self, shared: &SharedThemeState) -> (action: SessionAction)
        ensures
            (final(self)@, action) == old(self)@.woken(shared@),
    {
        match self.phase {
            SessionPhase::Connected => SessionAction::Send(self.last_sent),
            SessionPhase::Streaming => match shared.wait_for_change(self.last_sent, self.since) {
                Some(theme) => {
                    self.last_sent = theme;
                    SessionAction::Send(theme)
                },
                None => SessionAction::Wait,
            },
            SessionPhase::Closed => SessionAction::Close,
        }
    }
}

} // verus!
