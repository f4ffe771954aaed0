//! What a client receives, whatever the timing: the life of one session next
//! to the shared state, as a sequence of events, and the laws that hold of
//! every such sequence.
//!
//! Threads, locks and sockets do not appear here.  Each event stands for one
//! step taken while the lock on the shared state is held: the source's
//! callback setting the value, the session's thread waking up, or the end of
//! a write to the client.  Any interleaving of the three is a sequence of
//! events, so a law proved for all sequences holds for every schedule.

use crate::session::{SessionAction, SessionPhase, SessionView};
use crate::shared_state::SharedView;
use crate::theme::Theme;
use vstd::prelude::*;

verus! {

/// One step in the life of a session and the state it reads.
pub enum Event {
    /// The source's callback set the shared value.
    Changed(Theme),
    /// The session's thread woke up, with or without a reason.
    Wake,
    /// The write of the message under way ended; `true` if it went through.
    Written(bool),
}

/// A session next to the shared state: both of them, the message that is
/// being written if there is one, and what the client has received so far.
pub struct Run {
    pub shared: SharedView,
    pub session: SessionView,
    pub sending: Option<Theme>,
    pub received: Seq<Theme>,
}

/// The message that an action asks to write, if it asks for one.
pub open spec fn message_of(action: SessionAction) -> Option<Theme> {
    match action {
        SessionAction::Send(theme) => Some(theme),
        _ => None,
    }
}

/// The moment a client is accepted: the session owes it the current value.
pub open spec fn start(shared: SharedView) -> Run {
    Run {
        shared,
        session: SessionView::connect(shared),
        sending: Some(shared.value),
        received: Seq::empty(),
    }
}

/// The run after one event.  A wake-up counts only while the session is
/// waiting, and the end of a write only while a message is under way; a
/// message reaches the client when its write went through.
pub open spec fn step(run: Run, event: Event) -> Run {
    match event {
        Event::Changed(theme) => Run { shared: run.shared.set(theme), ..run },
        Event::Wake => match run.sending {
            Some(_) => run,
            None => {
                let (session, action) = run.session.woken(run.shared);
                Run { session, sending: message_of(action), ..run }
            },
        },
        Event::Written(delivered) => match run.sending {
            Some(message) => {
                let (session, action) = run.session.sent(run.shared, delivered);
                Run {
                    session,
                    sending: message_of(action),
                    received: if delivered {
                        run.received.push(message)
                    } else {
                        run.received
                    },
                    ..run
                }
            },
            None => run,
        },
    }
}

/// The run after a sequence of events, in order.
pub open spec fn run_all(run: Run, events: Seq<Event>) -> Run
    decreases events.len(),
{
    if events.len() == 0 {
        run
    } else {
        step(run_all(run, events.drop_last()), events.last())
    }
}

/// The themes that were set in the course of the events, in order.
pub open spec fn sets_in(events: Seq<Event>) -> Seq<Theme>
    decreases events.len(),
{
    if events.len() == 0 {
        Seq::empty()
    } else {
        match events.last() {
            Event::Changed(theme) => sets_in(events.drop_last()).push(theme),
            _ => sets_in(events.drop_last()),
        }
    }
}

/// Whether every write among the events went through.
pub open spec fn never_fails(events: Seq<Event>) -> bool {
    forall|i: int| 0 <= i < events.len() ==> events[i] != Event::Written(false)
}

/// The run once the session has been left to finish: the writes under way
/// go through, the thread wakes once more, and what it then sends goes
/// through as well.  Nothing is set meanwhile.
pub open spec fn settle(run: Run) -> Run {
    step(
        step(step(step(run, Event::Written(true)), Event::Written(true)), Event::Wake),
        Event::Written(true),
    )
}

/// Whether the session is blocked with nothing left to report: it is
/// streaming, no write is under way, and a wake-up would send it back to
/// waiting.
pub open spec fn at_rest(run: Run) -> bool {
    &&& run.session.phase is Streaming
    &&& run.sending is None
    &&& !run.shared.changed(run.session.last_sent, run.session.since)
}

/// What holds of every run between its steps: a message under way is the one
/// the session handed out last, a session that has just been accepted has its
/// first message under way, a streaming session's client has received
/// something, and a waiting session's client holds that last message.
spec fn coherent(run: Run) -> bool {
    &&& run.sending matches Some(message) ==> message == run.session.last_sent && !(
    run.session.phase is Closed)
    &&& run.session.phase is Connected ==> run.sending is Some
    &&& run.session.phase is Streaming ==> run.received.len() > 0
    &&& run.sending is None && run.session.phase is Streaming ==> run.received.last()
        == run.session.last_sent
}

/// Whether a theme is the one the state started with or one that was set.
spec fn known(theme: Theme, first: Theme, sets: Seq<Theme>) -> bool {
    theme == first || sets.contains(theme)
}

/// What holds after any sequence of events from the moment a client is
/// accepted; the laws below are read off it.
proof fn lemma_run(shared: SharedView, events: Seq<Event>)
    ensures
        ({
            let run = run_all(start(shared), events);
            &&& run.shared == shared.set_all(sets_in(events))
            &&& coherent(run)
            &&& never_fails(events) ==> !(run.session.phase is Closed)
            &&& run.session.phase is Connected ==> run.received.len() == 0
                && run.session.last_sent == shared.value
            &&& run.received.len() > 0 ==> run.received[0] == shared.value
            &&& known(run.shared.value, shared.value, sets_in(events))
            &&& known(run.session.last_sent, shared.value, sets_in(events))
            &&& forall|i: int|
                0 <= i < run.received.len() ==> known(
                    #[trigger] run.received[i],
                    shared.value,
                    sets_in(events),
                )
        }),
    decreases events.len(),
{
    if events.len() > 0 {
        let earlier = events.drop_last();
        lemma_run(shared, earlier);
        let before = run_all(start(shared), earlier);
        let after = step(before, events.last());
        assert(never_fails(events) ==> never_fails(earlier)) by {
            if never_fails(events) {
                assert forall|i: int| 0 <= i < earlier.len() implies earlier[i] != Event::Written(
                    false,
                ) by {
                    assert(earlier[i] == events[i]);
                }
            }
        }
        assert(never_fails(events) ==> events.last() != Event::Written(false)) by {
            if never_fails(events) {
                assert(events[events.len() - 1] != Event::Written(false));
            }
        }
        let old_sets = sets_in(earlier);
        let new_sets = sets_in(events);
        assert forall|theme: Theme| known(theme, shared.value, old_sets) implies known(
            theme,
            shared.value,
            new_sets,
        ) by {
            if old_sets.contains(theme) {
                let at = choose|at: int| 0 <= at < old_sets.len() && old_sets[at] == theme;
                match events.last() {
                    Event::Changed(added) => {
                        assert(new_sets[at] == theme);
                    },
                    _ => {},
                }
            }
        }
        match events.last() {
            Event::Changed(added) => {
                assert(new_sets.drop_last() =~= old_sets);
                assert(new_sets.last() == added);
                assert(known(added, shared.value, new_sets));
            },
            _ => {},
        }
        if after.received.len() > 0 {
            if before.received.len() > 0 {
                assert(after.received[0] == before.received[0]);
            }
        }
        assert forall|i: int| 0 <= i < after.received.len() implies known(
            #[trigger] after.received[i],
            shared.value,
            new_sets,
        ) by {
            if i < before.received.len() {
                assert(after.received[i] == before.received[i]);
            }
        }
    }
}

/// The shared state goes through exactly the values that were set, whatever
/// the session does in between.
pub proof fn shared_follows_sets(shared: SharedView, events: Seq<Event>)
    ensures
        run_all(start(shared), events).shared == shared.set_all(sets_in(events)),
{
    lemma_run(shared, events);
}

/// The first message a client receives is the value that the shared state
/// held when the client was accepted, however many times the value is set
/// before that message is out.
pub proof fn first_message_is_snapshot(shared: SharedView, events: Seq<Event>)
    requires
        run_all(start(shared), events).received.len() > 0,
    ensures
        run_all(start(shared), events).received[0] == shared.value,
{
    lemma_run(shared, events);
}

/// A client never receives a value that was never set: each message is the
/// value the state started with or one of those set since.
pub proof fn only_set_values_are_received(shared: SharedView, events: Seq<Event>, i: int)
    requires
        0 <= i < run_all(start(shared), events).received.len(),
    ensures
        run_all(start(shared), events).received[i] == shared.value || sets_in(events).contains(
            run_all(start(shared), events).received[i],
        ),
{
    lemma_run(shared, events);
    let run = run_all(start(shared), events);
    assert(known(run.received[i], shared.value, sets_in(events)));
}

/// A client whose writes all go through ends up with the final value:
/// after any sequence of events, once the session is left to finish, the
/// last message received is the current value and the session is at rest.
pub proof fn reader_reaches_final_value(shared: SharedView, events: Seq<Event>)
    requires
        never_fails(events),
    ensures
        ({
            let run = run_all(start(shared), events);
            let end = settle(run);
            &&& end.shared == run.shared
            &&& at_rest(end)
            &&& end.received.len() > 0
            &&& end.received.last() == run.shared.value
        }),
{
    lemma_run(shared, events);
}

/// Every value the shared state has held, oldest first: the one it started
/// with, then each one set.
pub open spec fn history(first: Theme, sets: Seq<Theme>) -> Seq<Theme> {
    seq![first] + sets
}

/// Whether the messages are the values found at the given positions of the
/// history, and the positions go strictly upwards.
pub open spec fn picked_in_order(
    messages: Seq<Theme>,
    history: Seq<Theme>,
    positions: Seq<int>,
) -> bool {
    &&& positions.len() == messages.len()
    &&& forall|i: int|
        0 <= i < positions.len() ==> 0 <= #[trigger] positions[i] < history.len()
            && messages[i] == history[positions[i]]
    &&& forall|i: int, j: int|
        0 <= i < j < positions.len() ==> #[trigger] positions[i] < #[trigger] positions[j]
}

/// Whether the session reads the shared value in this step and hands it
/// out as its next message.
spec fn hands_out(run: Run, event: Event) -> bool {
    match event {
        Event::Changed(_) => false,
        Event::Wake => run.sending is None && step(run, event).sending is Some,
        Event::Written(_) => run.sending is Some && step(run, event).sending is Some,
    }
}

/// Where in the history each received message was read, and where the
/// message handed out last was read.
spec fn positions_of(shared: SharedView, events: Seq<Event>) -> (Seq<int>, int)
    decreases events.len(),
{
    if events.len() == 0 {
        (Seq::empty(), 0)
    } else {
        let before = run_all(start(shared), events.drop_last());
        let after = step(before, events.last());
        let (received, latest) = positions_of(shared, events.drop_last());
        let now = sets_in(events).len() as int;
        (
            if after.received.len() > before.received.len() {
                received.push(latest)
            } else {
                received
            },
            if hands_out(before, events.last()) {
                now
            } else {
                latest
            },
        )
    }
}

/// The bookkeeping behind the order of messages: every received message is
/// the value found at its position of the history, positions go strictly
/// upwards, and the message handed out last is no older than any received.
proof fn lemma_positions(shared: SharedView, events: Seq<Event>)
    ensures
        ({
            let run = run_all(start(shared), events);
            let (received, latest) = positions_of(shared, events);
            let all = history(shared.value, sets_in(events));
            let now = sets_in(events).len() as int;
            &&& coherent(run)
            &&& run.shared.value == all[now]
            &&& run.shared.notifications == shared.notifications + now
            &&& picked_in_order(run.received, all, received)
            &&& 0 <= latest <= now
            &&& run.session.last_sent == all[latest]
            &&& run.session.since <= run.shared.notifications
            &&& run.sending is None && run.session.phase is Streaming ==> shared.notifications
                + latest <= run.session.since
            &&& received.len() > 0 ==> received.last() <= latest
            &&& received.len() > 0 && run.sending is Some ==> received.last() < latest
        }),
    decreases events.len(),
{
    lemma_run(shared, events);
    if events.len() > 0 {
        let earlier = events.drop_last();
        lemma_positions(shared, earlier);
        lemma_run(shared, earlier);
        let before = run_all(start(shared), earlier);
        let after = step(before, events.last());
        let (old_received, old_latest) = positions_of(shared, earlier);
        let (received, latest) = positions_of(shared, events);
        let old_all = history(shared.value, sets_in(earlier));
        let all = history(shared.value, sets_in(events));
        let old_now = sets_in(earlier).len() as int;
        let now = sets_in(events).len() as int;
        assert forall|i: int| 0 <= i < old_all.len() implies all[i] == old_all[i] by {
            match events.last() {
                Event::Changed(added) => {
                    assert(sets_in(events).drop_last() =~= sets_in(earlier));
                },
                _ => {},
            }
        }
        match events.last() {
            Event::Changed(added) => {
                assert(sets_in(events).last() == added);
                assert(all[now] == added);
            },
            _ => {},
        }
        assert(picked_in_order(after.received, all, received)) by {
            assert forall|i: int| 0 <= i < received.len() implies 0 <= #[trigger] received[i]
                < all.len() && after.received[i] == all[received[i]] by {
                if i < old_received.len() {
                    assert(received[i] == old_received[i]);
                    assert(after.received[i] == before.received[i]);
                }
            }
            assert forall|i: int, j: int| 0 <= i < j < received.len() implies #[trigger] received[i]
                < #[trigger] received[j] by {
                if j < old_received.len() {
                    assert(received[i] == old_received[i]);
                    assert(received[j] == old_received[j]);
                } else {
                    assert(received[i] == old_received[i]);
                    assert(old_received[i] <= old_received.last());
                }
            }
        }
    }
}

/// Messages keep the order in which the values were set.  Each message a
/// client receives is a value the state held at some point, and a later
/// message was read at a strictly later point than an earlier one: values
/// may be skipped in favour of newer ones, and never come out of order.
pub proof fn messages_keep_the_order_of_sets(shared: SharedView, events: Seq<Event>)
    ensures
        exists|positions: Seq<int>|
            picked_in_order(
                run_all(start(shared), events).received,
                history(shared.value, sets_in(events)),
                positions,
            ),
{
    lemma_positions(shared, events);
    let (received, latest) = positions_of(shared, events);
    assert(picked_in_order(
        run_all(start(shared), events).received,
        history(shared.value, sets_in(events)),
        received,
    ));
}

/// Setting a series of values and then another series is setting the two
/// series one after the other.
pub proof fn set_all_in_two_parts(shared: SharedView, first: Seq<Theme>, second: Seq<Theme>)
    ensures
        shared.set_all(first).set_all(second) == shared.set_all(first + second),
    decreases second.len(),
{
    if second.len() == 0 {
        assert(first + second =~= first);
    } else {
        set_all_in_two_parts(shared, first, second.drop_last());
        assert((first + second).drop_last() =~= first + second.drop_last());
        assert((first + second).last() == second.last());
    }
}

/// Two clients that connect at different points of the same series of sets,
/// and whose writes all go through, end up with the same last message: the
/// final value.  How the events of either session fall between the sets
/// does not matter.
pub proof fn sessions_converge(
    shared: SharedView,
    sets: Seq<Theme>,
    first_joins: int,
    second_joins: int,
    first_events: Seq<Event>,
    second_events: Seq<Event>,
)
    requires
        0 <= first_joins <= sets.len(),
        0 <= second_joins <= sets.len(),
        sets_in(first_events) == sets.skip(first_joins),
        sets_in(second_events) == sets.skip(second_joins),
        never_fails(first_events),
        never_fails(second_events),
    ensures
        ({
            let first = settle(
                run_all(start(shared.set_all(sets.take(first_joins))), first_events),
            );
            let second = settle(
                run_all(start(shared.set_all(sets.take(second_joins))), second_events),
            );
            &&& first.received.len() > 0
            &&& second.received.len() > 0
            &&& first.received.last() == shared.set_all(sets).value
            &&& second.received.last() == shared.set_all(sets).value
        }),
{
    let first_start = shared.set_all(sets.take(first_joins));
    let second_start = shared.set_all(sets.take(second_joins));
    reader_reaches_final_value(first_start, first_events);
    reader_reaches_final_value(second_start, second_events);
    lemma_run(first_start, first_events);
    lemma_run(second_start, second_events);
    set_all_in_two_parts(shared, sets.take(first_joins), sets.skip(first_joins));
    set_all_in_two_parts(shared, sets.take(second_joins), sets.skip(second_joins));
    assert(sets.take(first_joins) + sets.skip(first_joins) =~= sets);
    assert(sets.take(second_joins) + sets.skip(second_joins) =~= sets);
}

/// Two sets in a row before a blocked session runs are seen as one: the
/// client receives the second value, once, and never the first.  After
/// that the session is at rest again.
pub proof fn burst_is_coalesced(run: Run, first: Theme, second: Theme)
    requires
        at_rest(run),
    ensures
        ({
            let burst = step(step(run, Event::Changed(first)), Event::Changed(second));
            let end = step(step(step(burst, Event::Wake), Event::Written(true)), Event::Wake);
            &&& end.received == run.received.push(second)
            &&& at_rest(end)
        }),
{
}

} // verus!
