//! The publisher behind the application's effective appearance, which is
//! reported by name.

use super::ThemePublisher;
use crate::theme::Theme;
use vstd::prelude::*;
use vstd::string::*;

verus! {

/// Whether `word` occurs in `text` as a run of neighbouring characters.
pub open spec fn contains_word(text: Seq<char>, word: Seq<char>) -> bool {
    exists|start: int| occurs_at(text, word, start)
}

/// Whether `word` occurs in `text` at the given position.
pub open spec fn occurs_at(text: Seq<char>, word: Seq<char>, start: int) -> bool {
    0 <= start && start + word.len() <= text.len() && text.subrange(
        start,
        start + word.len(),
    ) == word
}

/// The word that marks a dark appearance.
pub open spec fn dark_marker() -> Seq<char> {
    seq!['D', 'a', 'r', 'k']
}

/// The publisher for the key-value-observed appearance of the application.
#[derive(Clone, Copy, Debug)]
pub struct KVOPublisher;

impl KVOPublisher {
    pub fn new() -> KVOPublisher {
        KVOPublisher {  }
    }
}

fn marker_at(text: &str, start: usize) -> (found: bool)
    requires
        start + 4 <= text@.len() <= usize::MAX,
    ensures
        found == occurs_at(text@, dark_marker(), start as int),
{
    let found = text.get_char(start) == 'D' && text.get_char(start + 1) == 'a' && text.get_char(
        start + 2,
    ) == 'r' && text.get_char(start + 3) == 'k';
    proof {
        let part = text@.subrange(start as int, start + 4);
        if found {
            assert(part =~= dark_marker());
        } else {
            assert(part[0] == text@[start as int]);
            assert(part[1] == text@[start + 1]);
            assert(part[2] == text@[start + 2]);
            assert(part[3] == text@[start + 3]);
        }
    }
    found
}

impl ThemePublisher<String> for KVOPublisher {
    /// An appearance whose name contains `Dark` is dark; every other name
    /// is light.
    open spec fn theme_for(self, value: String) -> Theme {
        if contains_word(value@, dark_marker()) {
            Theme::DARK
        } else {
            Theme::LIGHT
        }
    }

    fn to_theme(self, value: String) -> (theme: Theme) {
        let text = value.as_str();
        let length: usize = text.unicode_len();
        if length < 4 {
            return Theme::LIGHT;
        }
        let mut start: usize = 0;
        while start <= length - 4
            invariant
                4 <= length == text@.len(),
                text@ == value@,
                forall|before: int| 0 <= before < start ==> !occurs_at(text@, dark_marker(), before),
            decreases length - start,
        {
            if marker_at(text, start) {
                return Theme::DARK;
            }
            start = start + 1;
        }
        return Theme::LIGHT;
    }
}

} // verus!
