//! What crosses the socket: one theme per message, written as its lowercase
//! word and ended by a newline.  The server only writes, the consumer only
//! reads.

use crate::theme::Theme;
use vstd::prelude::*;

verus! {

/// The byte that ends a message.
pub const NEWLINE: u8 = 10;

/// The bytes of a theme's word: `light` or `dark` in ASCII.
pub open spec fn word(theme: Theme) -> Seq<u8> {
    match theme {
        Theme::LIGHT => seq![108u8, 105u8, 103u8, 104u8, 116u8],
        Theme::DARK => seq![100u8, 97u8, 114u8, 107u8],
    }
}

/// The bytes of the message that announces a theme.
pub open spec fn message(theme: Theme) -> Seq<u8> {
    word(theme).push(NEWLINE)
}

/// Whether a byte is ASCII white space: a blank, or one of tab, line feed,
/// vertical tab, form feed and carriage return.
pub open spec fn is_space(byte: u8) -> bool {
    byte == 32 || (9 <= byte && byte <= 13)
}

/// Whether the line holds the word from `start` on and nothing but white
/// space before and after it.
pub open spec fn padded(line: Seq<u8>, word: Seq<u8>, start: int) -> bool {
    &&& 0 <= start
    &&& start + word.len() <= line.len()
    &&& line.subrange(start, start + word.len()) == word
    &&& forall|i: int| 0 <= i < start ==> is_space(#[trigger] line[i])
    &&& forall|i: int| start + word.len() <= i < line.len() ==> is_space(#[trigger] line[i])
}

/// Whether a line announces the theme: it is the theme's word, with white
/// space allowed on either side.
pub open spec fn reads_as(line: Seq<u8>, theme: Theme) -> bool {
    exists|start: int| padded(line, word(theme), start)
}

/// The theme that a line announces, if it announces one.
pub open spec fn parse_message(line: Seq<u8>) -> Option<Theme> {
    if reads_as(line, Theme::LIGHT) {
        Some(Theme::LIGHT)
    } else if reads_as(line, Theme::DARK) {
        Some(Theme::DARK)
    } else {
        None
    }
}

/// The complete lines of a stream, in order and without their newlines.
pub open spec fn lines(stream: Seq<u8>) -> Seq<Seq<u8>>
    decreases stream.len(),
{
    if stream.len() == 0 {
        Seq::empty()
    } else if stream.last() == NEWLINE {
        lines(stream.drop_last()).push(partial(stream.drop_last()))
    } else {
        lines(stream.drop_last())
    }
}

/// What follows the last newline of a stream: the line that is not
/// complete yet.
pub open spec fn partial(stream: Seq<u8>) -> Seq<u8>
    decreases stream.len(),
{
    if stream.len() == 0 {
        Seq::empty()
    } else if stream.last() == NEWLINE {
        Seq::empty()
    } else {
        partial(stream.drop_last()).push(stream.last())
    }
}

/// The views of a sequence of byte vectors, one per vector and in order.
pub open spec fn frames_of(frames: Seq<Vec<u8>>) -> Seq<Seq<u8>> {
    frames.map_values(|frame: Vec<u8>| frame@)
}

fn word_bytes(theme: Theme) -> (bytes: Vec<u8>)
    ensures
        bytes@ == word(theme),
{
    let mut bytes: Vec<u8> = Vec::new();
    match theme {
        Theme::LIGHT => {
            bytes.push(108u8);
            bytes.push(105u8);
            bytes.push(103u8);
            bytes.push(104u8);
            bytes.push(116u8);
        },
        Theme::DARK => {
            bytes.push(100u8);
            bytes.push(97u8);
            bytes.push(114u8);
            bytes.push(107u8);
        },
    }
    assert(bytes@ =~= word(theme));
    bytes
}

/// The message that announces a theme, ready to be written.
pub fn encode_message(theme: Theme) -> (bytes: Vec<u8>)
    ensures
        bytes@ == message(theme),
{
    let mut bytes = word_bytes(theme);
    bytes.push(NEWLINE);
    bytes
}

fn is_space_byte(byte: u8) -> (space: bool)
    ensures
        space == is_space(byte),
{
    byte == 32 || (9 <= byte && byte <= 13)
}

/// Whether the bytes of the line from `start` up to `end` are the theme's
/// word.
fn holds_word(line: &[u8], start: usize, end: usize, theme: Theme) -> (holds: bool)
    requires
        start <= end <= line@.len(),
    ensures
        holds == (line@.subrange(start as int, end as int) == word(theme)),
{
    let expected = word_bytes(theme);
    if end - start != expected.len() {
        return false;
    }
    let mut i: usize = 0;
    while i < expected.len()
        invariant
            i <= expected.len(),
            expected@ == word(theme),
            end - start == expected.len(),
            start <= end <= line@.len(),
            forall|j: int| 0 <= j < i ==> line@[start + j] == expected@[j],
        decreases expected.len() - i,
    {
        if line[start + i] != expected[i] {
            assert(line@.subrange(start as int, end as int)[i as int] != word(theme)[i as int]);
            return false;
        }
        i = i + 1;
    }
    assert(line@.subrange(start as int, end as int) =~= word(theme));
    true
}

/// Reads one line as a message: white space round the word is passed over,
/// and a line that does not hold one of the two words gives `None`.
pub fn parse_line(line: &[u8]) -> (theme: Option<Theme>)
    ensures
        theme == parse_message(line@),
{
    let length: usize = line.len();
    let mut start: usize = 0;
    while start < length && is_space_byte(line[start])
        invariant
            start <= length == line@.len(),
            forall|i: int| 0 <= i < start ==> is_space(#[trigger] line@[i]),
        decreases length - start,
    {
        start = start + 1;
    }
    let mut end: usize = length;
    while end > start && is_space_byte(line[end - 1])
        invariant
            start <= end <= length == line@.len(),
            forall|i: int| end <= i < length ==> is_space(#[trigger] line@[i]),
        decreases end,
    {
        end = end - 1;
    }
    let light = holds_word(line, start, end, Theme::LIGHT);
    let dark = holds_word(line, start, end, Theme::DARK);
    proof {
        lemma_only_at(line@, Theme::LIGHT, start as int, end as int);
        lemma_only_at(line@, Theme::DARK, start as int, end as int);
    }
    if light {
        Some(Theme::LIGHT)
    } else if dark {
        Some(Theme::DARK)
    } else {
        None
    }
}

/// With the white space at both ends of a line marked off, the line
/// announces a theme exactly if what lies between is the theme's word.
proof fn lemma_only_at(line: Seq<u8>, theme: Theme, start: int, end: int)
    requires
        0 <= start <= end <= line.len(),
        forall|i: int| 0 <= i < start ==> is_space(#[trigger] line[i]),
        forall|i: int| end <= i < line.len() ==> is_space(#[trigger] line[i]),
        start < line.len() ==> !is_space(line[start]),
        end > start ==> !is_space(line[end - 1]),
    ensures
        reads_as(line, theme) == (line.subrange(start, end) == word(theme)),
{
    let expected = word(theme);
    assert(expected.len() > 0 && !is_space(expected[0]) && !is_space(expected.last()));
    if line.subrange(start, end) == expected {
        assert(end - start == expected.len());
        assert(padded(line, expected, start));
    }
    if reads_as(line, theme) {
        let at = choose|at: int| padded(line, expected, at);
        let part = line.subrange(at, at + expected.len());
        assert(part[0] == line[at]);
        assert(part[expected.len() - 1] == line[at + expected.len() - 1]);
        assert(!is_space(line[at]));
        assert(!is_space(line[at + expected.len() - 1]));
        assert(at == start);
        assert(at + expected.len() == end);
    }
}

/// The consumer's end of the stream: it takes the bytes as they arrive, in
/// pieces of any size, and hands out the lines that are complete.
#[derive(Debug)]
pub struct MessageReader {
    pending: Vec<u8>,
}

impl MessageReader {
    #[verifier::type_invariant]
    spec fn newline_free(self) -> bool {
        forall|i: int| 0 <= i < self.pending@.len() ==> self.pending@[i] != NEWLINE
    }

    /// The bytes of the line that is not complete yet.
    pub closed spec fn pending(self) -> Seq<u8> {
        self.pending@
    }

    /// A reader that has seen nothing.
    pub fn new() -> (reader: MessageReader)
        ensures
            reader.pending() == Seq::<u8>::empty(),
    {
        MessageReader { pending: Vec::new() }
    }

    /// Takes the next piece of the stream and returns the lines that it
    /// completes, in order.  What follows the last newline is kept for the
    /// next piece.
    pub fn feed(&mut self, chunk: &[u8]) -> (complete: Vec<Vec<u8>>)
        ensures
            frames_of(complete@) == lines(old(self).pending() + chunk@),
            final(self).pending() == partial(old(self).pending() + chunk@),
    {
        proof {
            use_type_invariant(&*self);
            lemma_newline_free(self.pending@);
        }
        let ghost before = self.pending@;
        let mut complete: Vec<Vec<u8>> = Vec::new();
        let mut line: Vec<u8> = Vec::new();
        std::mem::swap(&mut line, &mut self.pending);
        assert(before + chunk@.take(0) =~= before);
        assert(frames_of(complete@) =~= Seq::<Seq<u8>>::empty());
        let mut i: usize = 0;
        while i < chunk.len()
            invariant
                i <= chunk.len(),
                frames_of(complete@) == lines(before + chunk@.take(i as int)),
                line@ == partial(before + chunk@.take(i as int)),
            decreases chunk.len() - i,
        {
            let byte: u8 = chunk[i];
            let ghost seen = before + chunk@.take(i as int);
            let ghost next = before + chunk@.take(i + 1);
            let ghost done = complete@;
            proof {
                assert(next.drop_last() =~= seen);
                assert(next.last() == byte);
            }
            if byte == NEWLINE {
                let mut finished: Vec<u8> = Vec::new();
                std::mem::swap(&mut finished, &mut line);
                complete.push(finished);
                assert(frames_of(complete@) =~= frames_of(done).push(partial(seen)));
            } else {
                line.push(byte);
            }
            i = i + 1;
        }
        assert(chunk@.take(chunk.len() as int) =~= chunk@);
        proof {
            lemma_partial_newline_free(before + chunk@);
        }
        self.pending = line;
        complete
    }
}

/// A stream without a newline has no complete line and is all partial.
proof fn lemma_newline_free(stream: Seq<u8>)
    requires
        forall|i: int| 0 <= i < stream.len() ==> stream[i] != NEWLINE,
    ensures
        lines(stream) == Seq::<Seq<u8>>::empty(),
        partial(stream) == stream,
    decreases stream.len(),
{
    if stream.len() > 0 {
        lemma_newline_free(stream.drop_last());
        assert(partial(stream.drop_last()).push(stream.last()) =~= stream);
    }
}

/// The partial line of a stream holds no newline.
proof fn lemma_partial_newline_free(stream: Seq<u8>)
    ensures
        forall|i: int| 0 <= i < partial(stream).len() ==> partial(stream)[i] != NEWLINE,
    decreases stream.len(),
{
    if stream.len() > 0 {
        let earlier = partial(stream.drop_last());
        lemma_partial_newline_free(stream.drop_last());
        assert forall|i: int| 0 <= i < partial(stream).len() implies partial(stream)[i]
            != NEWLINE by {
            if i < earlier.len() {
                assert(partial(stream)[i] == earlier[i]);
            }
        }
    }
}

/// How the stream is cut into pieces does not matter: reading a piece and
/// then another gives the lines of the two pieces read as one.
pub proof fn pieces_do_not_matter(first: Seq<u8>, second: Seq<u8>)
    ensures
        lines(first + second) == lines(first) + lines(partial(first) + second),
        partial(first + second) == partial(partial(first) + second),
    decreases second.len(),
{
    if second.len() == 0 {
        assert(first + second =~= first);
        lemma_partial_newline_free(first);
        lemma_newline_free(partial(first));
        assert(partial(first) + second =~= partial(first));
        assert(lines(first) + Seq::<Seq<u8>>::empty() =~= lines(first));
    } else {
        pieces_do_not_matter(first, second.drop_last());
        assert((first + second).drop_last() =~= first + second.drop_last());
        assert((partial(first) + second).drop_last() =~= partial(first) + second.drop_last());
        assert((first + second).last() == second.last());
        assert((partial(first) + second).last() == second.last());
        if second.last() == NEWLINE {
            assert(lines(first + second) =~= lines(first) + lines(partial(first) + second));
        }
    }
}

/// The bytes of a theme's word are the ASCII codes of the characters of
/// its literal.
pub proof fn word_is_the_literal_in_ascii(theme: Theme)
    ensures
        word(theme) == theme.literal().map_values(|letter: char| letter as u8),
{
    assert(word(theme) =~= theme.literal().map_values(|letter: char| letter as u8));
}

/// A message that the server wrote reads back as the theme it announces.
pub proof fn message_round_trip(theme: Theme)
    ensures
        lines(message(theme)) == seq![word(theme)],
        partial(message(theme)) == Seq::<u8>::empty(),
        parse_message(word(theme)) == Some(theme),
{
    let text = message(theme);
    assert(text.drop_last() =~= word(theme));
    lemma_newline_free(word(theme));
    assert(lines(text) =~= seq![word(theme)]);
    assert(word(theme).subrange(0, word(theme).len() as int) =~= word(theme));
    assert(padded(word(theme), word(theme), 0));
    if theme == Theme::DARK {
        lemma_only_at(word(theme), Theme::LIGHT, 0, word(theme).len() as int);
    }
}

} // verus!
