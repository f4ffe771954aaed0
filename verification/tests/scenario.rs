use theme_sync::session::{ClientSession, SessionAction};
use theme_sync::shared_state::{listen_theme, Listened, SharedThemeState};
use theme_sync::theme::{parse_theme, Theme};
use theme_sync::theme_publisher::linux::DBusPublisher;
use theme_sync::theme_publisher::{Reading, ThemePublisher};
use theme_sync::wire::{encode_message, parse_line, MessageReader};

struct Client {
    reader: MessageReader,
    received: Vec<String>,
    connected: bool,
}

impl Client {
    fn new() -> Client {
        Client { reader: MessageReader::new(), received: Vec::new(), connected: true }
    }

    fn write(&mut self, theme: Theme) -> bool {
        if !self.connected {
            return false;
        }
        for line in self.reader.feed(&encode_message(theme)) {
            let theme = parse_line(&line).unwrap();
            self.received.push(theme.to_string());
        }
        true
    }
}

fn run(session: &mut ClientSession, client: &mut Client, state: &SharedThemeState, first: SessionAction) {
    let mut action = first;
    loop {
        match action {
            SessionAction::Send(theme) => {
                let delivered = client.write(theme);
                action = session.sent(state, delivered);
            }
            SessionAction::Wait | SessionAction::Close => break,
        }
    }
}

#[test]
fn two_clients_follow_the_operating_system() {
    let publisher = DBusPublisher::new();
    let mut state = SharedThemeState::seeded(publisher.fetch(Reading::Value(0)));
    assert_eq!(state.snapshot(), Theme::LIGHT);

    let mut client_one = Client::new();
    let (mut session_one, first) = ClientSession::connect(&state);
    run(&mut session_one, &mut client_one, &state, SessionAction::Send(first));
    assert_eq!(client_one.received, vec!["light"]);

    assert_eq!(listen_theme(publisher, &mut state, Some(1)), Listened::Published(Theme::DARK));
    let woken = session_one.woken(&state);
    run(&mut session_one, &mut client_one, &state, woken);
    assert_eq!(client_one.received, vec!["light", "dark"]);

    let mut client_two = Client::new();
    let (mut session_two, first) = ClientSession::connect(&state);
    run(&mut session_two, &mut client_two, &state, SessionAction::Send(first));
    assert_eq!(client_two.received, vec!["dark"]);

    client_one.connected = false;
    assert_eq!(listen_theme(publisher, &mut state, Some(0)), Listened::Published(Theme::LIGHT));
    let woken = session_one.woken(&state);
    assert_eq!(woken, SessionAction::Send(Theme::LIGHT));
    run(&mut session_one, &mut client_one, &state, woken);
    let woken = session_two.woken(&state);
    run(&mut session_two, &mut client_two, &state, woken);

    assert_eq!(client_one.received, vec!["light", "dark"]);
    assert_eq!(client_two.received, vec!["dark", "light"]);
    assert_eq!(session_one.woken(&state), SessionAction::Close);
    assert_eq!(session_two.woken(&state), SessionAction::Wait);
    assert_eq!(parse_theme(&client_two.received[1]), Some(state.snapshot()));
}
