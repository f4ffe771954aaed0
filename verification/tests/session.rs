use theme_sync::session::{ClientSession, SessionAction, SessionPhase};
use theme_sync::shared_state::SharedThemeState;
use theme_sync::theme::Theme;

#[test]
fn the_first_message_is_the_snapshot() {
    let state = SharedThemeState::new(Theme::DARK);
    let (session, first) = ClientSession::connect(&state);
    assert_eq!(first, state.snapshot());
    assert_eq!(first, Theme::DARK);
    assert_eq!(session.phase(), SessionPhase::Connected);
}

#[test]
fn the_first_message_is_the_value_at_connection_time() {
    let mut state = SharedThemeState::new(Theme::LIGHT);
    state.set(Theme::DARK);
    let (mut session, first) = ClientSession::connect(&state);
    assert_eq!(first, Theme::DARK);
    state.set(Theme::LIGHT);
    assert_eq!(first, Theme::DARK);
    assert_eq!(session.sent(&state, true), SessionAction::Send(Theme::LIGHT));
}

#[test]
fn a_session_streams_after_its_first_write() {
    let state = SharedThemeState::new(Theme::LIGHT);
    let (mut session, _) = ClientSession::connect(&state);
    assert_eq!(session.sent(&state, true), SessionAction::Wait);
    assert_eq!(session.phase(), SessionPhase::Streaming);
}

#[test]
fn a_failed_first_write_closes_the_session() {
    let state = SharedThemeState::new(Theme::LIGHT);
    let (mut session, _) = ClientSession::connect(&state);
    assert_eq!(session.sent(&state, false), SessionAction::Close);
    assert_eq!(session.phase(), SessionPhase::Closed);
}

#[test]
fn a_failed_later_write_closes_the_session() {
    let mut state = SharedThemeState::new(Theme::LIGHT);
    let (mut session, _) = ClientSession::connect(&state);
    assert_eq!(session.sent(&state, true), SessionAction::Wait);
    state.set(Theme::DARK);
    assert_eq!(session.woken(&state), SessionAction::Send(Theme::DARK));
    assert_eq!(session.sent(&state, false), SessionAction::Close);
    assert_eq!(session.phase(), SessionPhase::Closed);
}

#[test]
fn a_closed_session_stays_closed() {
    let mut state = SharedThemeState::new(Theme::LIGHT);
    let (mut session, _) = ClientSession::connect(&state);
    assert_eq!(session.sent(&state, false), SessionAction::Close);
    state.set(Theme::DARK);
    assert_eq!(session.woken(&state), SessionAction::Close);
    assert_eq!(session.sent(&state, true), SessionAction::Close);
    assert_eq!(session.woken(&state), SessionAction::Close);
    assert_eq!(session.phase(), SessionPhase::Closed);
}

#[test]
fn a_session_woken_for_nothing_waits_on() {
    let state = SharedThemeState::new(Theme::LIGHT);
    let (mut session, _) = ClientSession::connect(&state);
    assert_eq!(session.sent(&state, true), SessionAction::Wait);
    assert_eq!(session.woken(&state), SessionAction::Wait);
    assert_eq!(session.woken(&state), SessionAction::Wait);
    assert_eq!(session.phase(), SessionPhase::Streaming);
}

#[test]
fn a_session_woken_before_its_first_write_still_owes_the_snapshot() {
    let mut state = SharedThemeState::new(Theme::LIGHT);
    let (mut session, first) = ClientSession::connect(&state);
    state.set(Theme::DARK);
    assert_eq!(session.woken(&state), SessionAction::Send(first));
    assert_eq!(session.phase(), SessionPhase::Connected);
}

#[test]
fn a_session_sends_each_change() {
    let mut state = SharedThemeState::new(Theme::LIGHT);
    let (mut session, _) = ClientSession::connect(&state);
    assert_eq!(session.sent(&state, true), SessionAction::Wait);
    state.set(Theme::DARK);
    assert_eq!(session.woken(&state), SessionAction::Send(Theme::DARK));
    assert_eq!(session.sent(&state, true), SessionAction::Wait);
    state.set(Theme::LIGHT);
    assert_eq!(session.woken(&state), SessionAction::Send(Theme::LIGHT));
    assert_eq!(session.sent(&state, true), SessionAction::Wait);
    assert_eq!(session.woken(&state), SessionAction::Wait);
}

#[test]
fn two_sets_before_a_wake_are_seen_as_one() {
    let mut state = SharedThemeState::new(Theme::LIGHT);
    let (mut session, _) = ClientSession::connect(&state);
    assert_eq!(session.sent(&state, true), SessionAction::Wait);
    state.set(Theme::DARK);
    state.set(Theme::LIGHT);
    assert_eq!(session.woken(&state), SessionAction::Send(Theme::LIGHT));
    assert_eq!(session.sent(&state, true), SessionAction::Wait);
    assert_eq!(session.woken(&state), SessionAction::Wait);
}

#[test]
fn a_burst_ending_in_a_new_value_sends_only_that_value() {
    let mut state = SharedThemeState::new(Theme::DARK);
    let (mut session, _) = ClientSession::connect(&state);
    assert_eq!(session.sent(&state, true), SessionAction::Wait);
    state.set(Theme::DARK);
    state.set(Theme::LIGHT);
    assert_eq!(session.woken(&state), SessionAction::Send(Theme::LIGHT));
    assert_eq!(session.sent(&state, true), SessionAction::Wait);
    assert_eq!(session.woken(&state), SessionAction::Wait);
}

#[test]
fn a_change_during_a_write_is_sent_next() {
    let mut state = SharedThemeState::new(Theme::LIGHT);
    let (mut session, first) = ClientSession::connect(&state);
    assert_eq!(first, Theme::LIGHT);
    state.set(Theme::DARK);
    assert_eq!(session.sent(&state, true), SessionAction::Send(Theme::DARK));
    assert_eq!(session.sent(&state, true), SessionAction::Wait);
    assert_eq!(session.woken(&state), SessionAction::Wait);
}

#[test]
fn a_value_set_back_during_a_write_is_not_sent_again() {
    let mut state = SharedThemeState::new(Theme::LIGHT);
    let (mut session, _) = ClientSession::connect(&state);
    state.set(Theme::DARK);
    state.set(Theme::LIGHT);
    assert_eq!(session.sent(&state, true), SessionAction::Wait);
    assert_eq!(session.woken(&state), SessionAction::Wait);
}

#[test]
fn two_sessions_end_with_the_same_value() {
    let mut state = SharedThemeState::new(Theme::LIGHT);
    let (mut early, early_first) = ClientSession::connect(&state);
    let mut early_got = vec![early_first];
    assert_eq!(early.sent(&state, true), SessionAction::Wait);

    state.set(Theme::DARK);
    let (mut late, late_first) = ClientSession::connect(&state);
    let mut late_got = vec![late_first];
    assert_eq!(late.sent(&state, true), SessionAction::Wait);

    state.set(Theme::LIGHT);
    if let SessionAction::Send(theme) = late.woken(&state) {
        late_got.push(theme);
        assert_eq!(late.sent(&state, true), SessionAction::Wait);
    }
    state.set(Theme::DARK);
    state.set(Theme::DARK);

    for (session, got) in [(&mut early, &mut early_got), (&mut late, &mut late_got)] {
        if let SessionAction::Send(theme) = session.woken(&state) {
            got.push(theme);
            assert_eq!(session.sent(&state, true), SessionAction::Wait);
        }
        assert_eq!(session.woken(&state), SessionAction::Wait);
    }
    assert_eq!(early_got, vec![Theme::LIGHT, Theme::DARK]);
    assert_eq!(late_got, vec![Theme::DARK, Theme::LIGHT, Theme::DARK]);
    assert_eq!(early_got.last(), late_got.last());
    assert_eq!(early_got.last(), Some(&state.snapshot()));
}
