//! The consumer side: what a listener is, and the adapters that ship with
//! the library.

use crate::text::{chosen, value_or};
use crate::theme::Theme;
use crate::wire::{frames_of, lines, parse_line, parse_message, partial, MessageReader};
use vstd::prelude::*;

pub mod alacritty;
pub mod tmux;
pub mod walk;

verus! {

/// `std::io::Error`, which a listener answers with when it fails.  It is
/// passed on and never looked into.
#[verifier::external_type_specification]
#[verifier::external_body]
pub struct ExIoError(std::io::Error);

/// What a consumer does with a theme.  Listeners implement their own logic;
/// the library promises nothing about it and only decides when it runs.
pub trait ThemeListener<T> {
    /// Applies the theme and reports how that went.
    fn handle(self, next_theme_value: Theme) -> std::io::Result<T>;
}

/// Why an adapter could not be set up.
#[derive(Clone, Copy, Debug, PartialEq, Eq, Structural)]
pub enum AdapterError {
    /// A theme name was given and is empty.
    ThemeNotSet,
    /// The home directory is not there.
    HomeNotFound,
    /// The adapter's directory of themes is not there.
    DirectoryNotFound,
    /// One of the two theme files is not there.
    ConfigNotFound,
}

/// The home directory as the environment gives it, or the empty path where
/// it gives none.
pub fn home_directory(home: Option<String>) -> (path: String)
    ensures
        path@ == chosen(home, Seq::empty()),
{
    let path = value_or(home, "");
    proof {
        reveal_strlit("");
        assert(""@ =~= Seq::<char>::empty());
    }
    path
}

/// What became of one line of the stream.
#[derive(Debug)]
pub enum Delivery<T> {
    /// The line announced this theme, and the listener applied it.
    Handled(Theme, T),
    /// The line announced this theme, and the listener failed to apply it.
    Failed(Theme, std::io::Error),
    /// The line announced no theme.  The listener was not called.
    Malformed,
}

impl<T> Delivery<T> {
    /// The theme that was handed to the listener, if it was called.
    pub open spec fn theme(self) -> Option<Theme> {
        match self {
            Delivery::Handled(theme, _) => Some(theme),
            Delivery::Failed(theme, _) => Some(theme),
            Delivery::Malformed => None,
        }
    }

    /// Records what the listener answered when it was handed a theme.
    pub fn answered(theme: Theme, outcome: std::io::Result<T>) -> (delivery: Delivery<T>)
        ensures
            delivery == (match outcome {
                Ok(value) => Delivery::Handled(theme, value),
                Err(error) => Delivery::Failed(theme, error),
            }),
    {
        match outcome {
            Ok(value) => Delivery::Handled(theme, value),
            Err(error) => Delivery::Failed(theme, error),
        }
    }
}

/// The themes handed to the listener, one entry per delivery and in order.
pub open spec fn themes_of<T>(deliveries: Seq<Delivery<T>>) -> Seq<Option<Theme>> {
    deliveries.map_values(|delivery: Delivery<T>| delivery.theme())
}

/// What each line of a stream announces, one entry per line and in order.
pub open spec fn announced(stream: Seq<u8>) -> Seq<Option<Theme>> {
    lines(stream).map_values(|line: Seq<u8>| parse_message(line))
}

/// Handles one line of the stream: a line that announces a theme is handed
/// to the listener, whose answer is passed on whatever it is; any other
/// line is reported as malformed and the listener is left alone.
pub fn handle_line<A, B>(listener: &A, line: &[u8]) -> (delivery: Delivery<B>) where
    A: ThemeListener<B> + Clone,

    ensures
        delivery.theme() == parse_message(line@),
{
    match parse_line(line) {
        Some(theme) => Delivery::answered(theme, listener.clone().handle(theme)),
        None => Delivery::Malformed,
    }
}

/// Handles the next piece of the stream: every line that the piece
/// completes is handled in turn, each one before the next is looked at, and
/// neither a malformed line nor a failing listener stops the ones after it.
pub fn handle_stream<A, B>(listener: &A, reader: &mut MessageReader, chunk: &[u8]) -> (deliveries:
    Vec<Delivery<B>>) where A: ThemeListener<B> + Clone
    ensures
        themes_of(deliveries@) == announced(old(reader).pending() + chunk@),
        final(reader).pending() == partial(old(reader).pending() + chunk@),
{
    let complete = reader.feed(chunk);
    let ghost stream = old(reader).pending() + chunk@;
    let mut deliveries: Vec<Delivery<B>> = Vec::new();
    let mut i: usize = 0;
    assert(themes_of(deliveries@) =~= announced(stream).take(0));
    while i < complete.len()
        invariant
            i <= complete.len(),
            frames_of(complete@) == lines(stream),
            themes_of(deliveries@) == announced(stream).take(i as int),
        decreases complete.len() - i,
    {
        let ghost done = deliveries@;
        let delivery = handle_line(listener, complete[i].as_slice());
        assert(frames_of(complete@)[i as int] == complete@[i as int]@);
        deliveries.push(delivery);
        assert(themes_of(deliveries@) =~= themes_of(done).push(delivery.theme()));
        assert(announced(stream).take(i + 1) =~= announced(stream).take(i as int).push(
            parse_message(lines(stream)[i as int]),
        ));
        i = i + 1;
    }
    assert(announced(stream).take(complete.len() as int) =~= announced(stream));
    deliveries
}

} // verus!
