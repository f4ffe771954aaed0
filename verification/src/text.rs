//! Small string helpers shared by the adapters: decimal numbers, joining,
//! comparing and path building.

use vstd::prelude::*;
use vstd::string::*;

verus! {

/// The views of a sequence of strings, one per string and in the same order.
pub open spec fn lines_of(texts: Seq<String>) -> Seq<Seq<char>> {
    texts.map_values(|text: String| text@)
}

/// The character that writes the decimal digit `d`.
pub open spec fn digit(d: nat) -> char
    recommends
        d < 10,
{
    if d == 0 {
        '0'
    } else if d == 1 {
        '1'
    } else if d == 2 {
        '2'
    } else if d == 3 {
        '3'
    } else if d == 4 {
        '4'
    } else if d == 5 {
        '5'
    } else if d == 6 {
        '6'
    } else if d == 7 {
        '7'
    } else if d == 8 {
        '8'
    } else {
        '9'
    }
}

/// `n` written in base ten, most significant digit first and without
/// leading zeros.
pub open spec fn decimal(n: nat) -> Seq<char>
    decreases n,
{
    if n < 10 {
        seq![digit(n)]
    } else {
        decimal(n / 10).push(digit(n % 10))
    }
}

/// The parts in order with the separator between each two neighbours.
pub open spec fn join(parts: Seq<Seq<char>>, separator: Seq<char>) -> Seq<char>
    decreases parts.len(),
{
    if parts.len() == 0 {
        Seq::empty()
    } else if parts.len() == 1 {
        parts[0]
    } else {
        join(parts.drop_last(), separator) + separator + parts.last()
    }
}

fn digit_text(d: usize) -> (text: &'static str)
    requires
        d < 10,
    ensures
        text@ == seq![digit(d as nat)],
{
    let text = if d == 0 {
        "0"
    } else if d == 1 {
        "1"
    } else if d == 2 {
        "2"
    } else if d == 3 {
        "3"
    } else if d == 4 {
        "4"
    } else if d == 5 {
        "5"
    } else if d == 6 {
        "6"
    } else if d == 7 {
        "7"
    } else if d == 8 {
        "8"
    } else {
        "9"
    };
    proof {
        reveal_strlit("0");
        reveal_strlit("1");
        reveal_strlit("2");
        reveal_strlit("3");
        reveal_strlit("4");
        reveal_strlit("5");
        reveal_strlit("6");
        reveal_strlit("7");
        reveal_strlit("8");
        reveal_strlit("9");
        assert(text@ =~= seq![digit(d as nat)]);
    }
    text
}

/// Writes `n` in base ten.
pub fn decimal_string(n: usize) -> (text: String)
    ensures
        text@ == decimal(n as nat),
    decreases n,
{
    if n < 10 {
        String::from_str(digit_text(n))
    } else {
        let mut text = decimal_string(n / 10);
        text.append(digit_text(n % 10));
        assert(text@ =~= decimal((n / 10) as nat).push(digit((n % 10) as nat)));
        text
    }
}

/// Joins the parts with the separator between them; no separator is written
/// before the first part or after the last.
pub fn join_all(parts: &Vec<String>, separator: &str) -> (joined: String)
    ensures
        joined@ == join(lines_of(parts@), separator@),
{
    let mut joined = String::new();
    let mut i: usize = 0;
    while i < parts.len()
        invariant
            i <= parts.len(),
            joined@ == join(lines_of(parts@).take(i as int), separator@),
        decreases parts.len() - i,
    {
        let ghost done = lines_of(parts@).take(i as int);
        let ghost next = lines_of(parts@).take(i + 1);
        proof {
            assert(next.drop_last() =~= done);
            assert(next.last() == parts@[i as int]@);
        }
        if i > 0 {
            joined.append(separator);
        } else {
            assert(joined@ + parts@[i as int]@ =~= parts@[i as int]@);
        }
        joined.append(parts[i].as_str());
        i = i + 1;
    }
    assert(lines_of(parts@).take(parts.len() as int) =~= lines_of(parts@));
    joined
}

/// The text of an optional setting, or the fallback where it is absent.
pub open spec fn chosen(value: Option<String>, fallback: Seq<char>) -> Seq<char> {
    match value {
        Some(text) => text@,
        None => fallback,
    }
}

/// A path extended by a component, by the rule of Unix paths: a component
/// that starts at the root replaces the path; otherwise it is appended, after
/// a `/` unless the path is empty or already ends in one.  Nothing is
/// normalised.
pub open spec fn join_path(base: Seq<char>, component: Seq<char>) -> Seq<char> {
    if component.len() > 0 && component[0] == '/' {
        component
    } else if base.len() == 0 || base.last() == '/' {
        base + component
    } else {
        base + seq!['/'] + component
    }
}

/// The setting's text, or the fallback where the setting is absent.
pub fn value_or(value: Option<String>, fallback: &str) -> (text: String)
    ensures
        text@ == chosen(value, fallback@),
{
    match value {
        Some(text) => text,
        None => String::from_str(fallback),
    }
}

/// Extends a path by one component; see [`join_path`].
pub fn path_join(base: &str, component: &str) -> (path: String)
    ensures
        path@ == join_path(base@, component@),
{
    let base_len: usize = base.unicode_len();
    let component_len: usize = component.unicode_len();
    if component_len > 0 && component.get_char(0) == '/' {
        String::from_str(component)
    } else {
        let mut path = String::from_str(base);
        if base_len > 0 && base.get_char(base_len - 1) != '/' {
            path.append("/");
            proof {
                reveal_strlit("/");
                assert("/"@ =~= seq!['/']);
            }
        }
        path.append(component);
        path
    }
}

/// Whether two strings hold the same characters.
pub fn same_text(left: &str, right: &str) -> (same: bool)
    ensures
        same == (left@ == right@),
{
    let left_owned = String::from_str(left);
    let right_owned = String::from_str(right);
    left_owned == right_owned
}

} // verus!
