use theme_sync::shared_state::{listen_theme, Listened, SharedThemeState};
use theme_sync::theme::Theme;
use theme_sync::theme_publisher::linux::DBusPublisher;
use theme_sync::theme_publisher::macos::KVOPublisher;
use theme_sync::theme_publisher::SourceError;

#[test]
fn a_new_state_holds_its_initial_value() {
    let state = SharedThemeState::new(Theme::LIGHT);
    assert_eq!(state.snapshot(), Theme::LIGHT);
    assert_eq!(state.notifications(), 0);
    assert!(state.can_set());
}

#[test]
fn set_overwrites_and_counts() {
    let mut state = SharedThemeState::new(Theme::LIGHT);
    state.set(Theme::DARK);
    assert_eq!(state.snapshot(), Theme::DARK);
    assert_eq!(state.notifications(), 1);
    state.set(Theme::DARK);
    assert_eq!(state.snapshot(), Theme::DARK);
    assert_eq!(state.notifications(), 2);
    state.set(Theme::LIGHT);
    assert_eq!(state.snapshot(), Theme::LIGHT);
    assert_eq!(state.notifications(), 3);
}

#[test]
fn a_reader_woken_for_nothing_keeps_waiting() {
    let state = SharedThemeState::new(Theme::LIGHT);
    assert_eq!(state.wait_for_change(Theme::LIGHT, 0), None);
    assert_eq!(state.wait_for_change(Theme::LIGHT, 0), None);
}

#[test]
fn a_reader_is_released_by_a_new_value() {
    let mut state = SharedThemeState::new(Theme::LIGHT);
    let since = state.notifications();
    state.set(Theme::DARK);
    assert_eq!(state.wait_for_change(Theme::LIGHT, since), Some(Theme::DARK));
}

#[test]
fn a_reader_is_released_by_a_notification_with_the_old_value() {
    let mut state = SharedThemeState::new(Theme::LIGHT);
    let since = state.notifications();
    state.set(Theme::LIGHT);
    assert_eq!(state.wait_for_change(Theme::LIGHT, since), Some(Theme::LIGHT));
    assert_eq!(state.wait_for_change(Theme::LIGHT, state.notifications()), None);
}

#[test]
fn a_reader_that_begins_late_sees_a_changed_value_at_once() {
    let mut state = SharedThemeState::new(Theme::LIGHT);
    state.set(Theme::DARK);
    let since = state.notifications();
    assert_eq!(state.wait_for_change(Theme::LIGHT, since), Some(Theme::DARK));
    assert_eq!(state.wait_for_change(Theme::DARK, since), None);
}

#[test]
fn a_reader_observes_the_final_value_after_every_set() {
    let sets = [Theme::DARK, Theme::DARK, Theme::LIGHT, Theme::DARK, Theme::LIGHT, Theme::LIGHT];
    let mut state = SharedThemeState::new(Theme::LIGHT);
    let mut last_seen = state.snapshot();
    let mut observed = vec![last_seen];
    for theme in sets {
        let since = state.notifications();
        state.set(theme);
        let seen = state.wait_for_change(last_seen, since);
        assert_eq!(seen, Some(theme));
        last_seen = theme;
        observed.push(theme);
    }
    assert_eq!(last_seen, Theme::LIGHT);
    assert_eq!(
        observed,
        vec![
            Theme::LIGHT,
            Theme::DARK,
            Theme::DARK,
            Theme::LIGHT,
            Theme::DARK,
            Theme::LIGHT,
            Theme::LIGHT
        ]
    );
}

#[test]
fn a_state_is_seeded_with_the_fetched_value() {
    assert_eq!(SharedThemeState::seeded(Ok(Theme::LIGHT)).snapshot(), Theme::LIGHT);
    assert_eq!(SharedThemeState::seeded(Ok(Theme::DARK)).snapshot(), Theme::DARK);
    assert_eq!(SharedThemeState::seeded(Ok(Theme::LIGHT)).notifications(), 0);
}

#[test]
fn a_failed_fetch_seeds_the_state_dark() {
    let unavailable = SharedThemeState::seeded(Err(SourceError::SourceUnavailable));
    assert_eq!(unavailable.snapshot(), Theme::DARK);
    assert_eq!(unavailable.notifications(), 0);
    let malformed = SharedThemeState::seeded(Err(SourceError::MalformedValue));
    assert_eq!(malformed.snapshot(), Theme::DARK);
}

#[test]
fn a_resumed_state_keeps_its_count() {
    let state = SharedThemeState::resumed(Theme::DARK, 41);
    assert_eq!(state.snapshot(), Theme::DARK);
    assert_eq!(state.notifications(), 41);
    assert!(state.can_set());
    assert!(!SharedThemeState::resumed(Theme::DARK, u64::MAX).can_set());
}

#[test]
fn listen_theme_publishes_a_change() {
    let mut state = SharedThemeState::new(Theme::LIGHT);
    let outcome = listen_theme(DBusPublisher::new(), &mut state, Some(1));
    assert_eq!(outcome, Listened::Published(Theme::DARK));
    assert_eq!(state.snapshot(), Theme::DARK);
    assert_eq!(state.notifications(), 1);
    let outcome = listen_theme(DBusPublisher::new(), &mut state, Some(0));
    assert_eq!(outcome, Listened::Published(Theme::LIGHT));
    assert_eq!(state.snapshot(), Theme::LIGHT);
    assert_eq!(state.notifications(), 2);
}

#[test]
fn listen_theme_publishes_a_named_appearance() {
    let mut state = SharedThemeState::new(Theme::LIGHT);
    let name = "NSAppearanceNameDarkAqua".to_string();
    let outcome = listen_theme(KVOPublisher::new(), &mut state, Some(name));
    assert_eq!(outcome, Listened::Published(Theme::DARK));
    assert_eq!(state.snapshot(), Theme::DARK);
}

#[test]
fn listen_theme_ignores_a_notification_without_a_value() {
    let mut state = SharedThemeState::new(Theme::DARK);
    let outcome = listen_theme(DBusPublisher::new(), &mut state, None);
    assert_eq!(outcome, Listened::Ignored);
    assert_eq!(state.snapshot(), Theme::DARK);
    assert_eq!(state.notifications(), 0);
}

#[test]
fn listen_theme_stops_when_the_count_is_used_up() {
    let mut state = SharedThemeState::resumed(Theme::LIGHT, u64::MAX);
    let outcome = listen_theme(DBusPublisher::new(), &mut state, Some(1));
    assert_eq!(outcome, Listened::Exhausted);
    assert_eq!(state.snapshot(), Theme::LIGHT);
    assert_eq!(state.notifications(), u64::MAX);
    let mut state = SharedThemeState::resumed(Theme::LIGHT, u64::MAX - 1);
    let outcome = listen_theme(DBusPublisher::new(), &mut state, Some(1));
    assert_eq!(outcome, Listened::Published(Theme::DARK));
    assert_eq!(state.notifications(), u64::MAX);
}
