use std::cell::RefCell;
use std::io::{Error, ErrorKind};
use std::rc::Rc;
use theme_sync::theme::Theme;
use theme_sync::theme_listener::{handle_line, handle_stream, Delivery, ThemeListener};
use theme_sync::wire::MessageReader;

#[derive(Clone)]
struct Recorder {
    seen: Rc<RefCell<Vec<Theme>>>,
}

impl Recorder {
    fn new() -> Recorder {
        Recorder { seen: Rc::new(RefCell::new(Vec::new())) }
    }

    fn seen(&self) -> Vec<Theme> {
        self.seen.borrow().clone()
    }
}

impl ThemeListener<usize> for Recorder {
    fn handle(self, next_theme_value: Theme) -> std::io::Result<usize> {
        self.seen.borrow_mut().push(next_theme_value);
        Ok(self.seen.borrow().len())
    }
}

#[derive(Clone)]
struct FailsOnDark {
    seen: Rc<RefCell<Vec<Theme>>>,
}

impl ThemeListener<()> for FailsOnDark {
    fn handle(self, next_theme_value: Theme) -> std::io::Result<()> {
        self.seen.borrow_mut().push(next_theme_value);
        match next_theme_value {
            Theme::DARK => Err(Error::new(ErrorKind::BrokenPipe, "no terminal")),
            Theme::LIGHT => Ok(()),
        }
    }
}

fn themes<T>(deliveries: &[Delivery<T>]) -> Vec<Option<Theme>> {
    deliveries
        .iter()
        .map(|delivery| match delivery {
            Delivery::Handled(theme, _) => Some(*theme),
            Delivery::Failed(theme, _) => Some(*theme),
            Delivery::Malformed => None,
        })
        .collect()
}

#[test]
fn the_handler_sees_dark_then_light() {
    let recorder = Recorder::new();
    let mut reader = MessageReader::new();
    let deliveries = handle_stream(&recorder, &mut reader, b"dark\nlight\n");
    assert_eq!(recorder.seen(), vec![Theme::DARK, Theme::LIGHT]);
    assert_eq!(deliveries.len(), 2);
    assert!(matches!(deliveries[0], Delivery::Handled(Theme::DARK, 1)));
    assert!(matches!(deliveries[1], Delivery::Handled(Theme::LIGHT, 2)));
}

#[test]
fn a_malformed_line_is_recorded_and_not_handled() {
    let recorder = Recorder::new();
    let mut reader = MessageReader::new();
    let deliveries = handle_stream(&recorder, &mut reader, b"dark\npurple\nlight\n");
    assert_eq!(recorder.seen(), vec![Theme::DARK, Theme::LIGHT]);
    assert_eq!(themes(&deliveries), vec![Some(Theme::DARK), None, Some(Theme::LIGHT)]);
    assert!(matches!(deliveries[1], Delivery::Malformed));
}

#[test]
fn an_unfinished_line_is_not_handled_until_it_ends() {
    let recorder = Recorder::new();
    let mut reader = MessageReader::new();
    assert!(handle_stream(&recorder, &mut reader, b"dar").is_empty());
    assert!(recorder.seen().is_empty());
    let deliveries = handle_stream(&recorder, &mut reader, b"k\nlig");
    assert_eq!(themes(&deliveries), vec![Some(Theme::DARK)]);
    assert_eq!(recorder.seen(), vec![Theme::DARK]);
    let deliveries = handle_stream(&recorder, &mut reader, b"ht\n");
    assert_eq!(themes(&deliveries), vec![Some(Theme::LIGHT)]);
    assert_eq!(recorder.seen(), vec![Theme::DARK, Theme::LIGHT]);
}

#[test]
fn a_failing_handler_does_not_stop_the_stream() {
    let listener = FailsOnDark { seen: Rc::new(RefCell::new(Vec::new())) };
    let mut reader = MessageReader::new();
    let deliveries = handle_stream(&listener, &mut reader, b"light\ndark\nlight\n");
    assert_eq!(*listener.seen.borrow(), vec![Theme::LIGHT, Theme::DARK, Theme::LIGHT]);
    assert!(matches!(deliveries[0], Delivery::Handled(Theme::LIGHT, ())));
    match &deliveries[1] {
        Delivery::Failed(theme, error) => {
            assert_eq!(*theme, Theme::DARK);
            assert_eq!(error.kind(), ErrorKind::BrokenPipe);
        }
        _ => panic!("the failure of the handler was not reported"),
    }
    assert!(matches!(deliveries[2], Delivery::Handled(Theme::LIGHT, ())));
}

#[test]
fn handle_line_hands_the_theme_to_the_listener() {
    let recorder = Recorder::new();
    assert!(matches!(handle_line(&recorder, b"light"), Delivery::Handled(Theme::LIGHT, 1)));
    assert!(matches!(handle_line(&recorder, b" dark\r"), Delivery::Handled(Theme::DARK, 2)));
    assert_eq!(recorder.seen(), vec![Theme::LIGHT, Theme::DARK]);
}

#[test]
fn handle_line_leaves_the_listener_alone_on_a_malformed_line() {
    let recorder = Recorder::new();
    assert!(matches!(handle_line(&recorder, b"purple"), Delivery::Malformed));
    assert!(matches!(handle_line(&recorder, b""), Delivery::Malformed));
    assert!(recorder.seen().is_empty());
}

#[test]
fn an_empty_piece_handles_nothing() {
    let recorder = Recorder::new();
    let mut reader = MessageReader::new();
    assert!(handle_stream(&recorder, &mut reader, b"").is_empty());
    assert!(recorder.seen().is_empty());
}

#[test]
fn an_answer_is_recorded_with_its_theme() {
    assert!(matches!(Delivery::answered(Theme::DARK, Ok(7usize)), Delivery::Handled(Theme::DARK, 7)));
    let failure: std::io::Result<usize> = Err(Error::new(ErrorKind::NotFound, "no file"));
    match Delivery::answered(Theme::LIGHT, failure) {
        Delivery::Failed(theme, error) => {
            assert_eq!(theme, Theme::LIGHT);
            assert_eq!(error.kind(), ErrorKind::NotFound);
        }
        _ => panic!("the failure was not recorded"),
    }
}
