//! Scanning characters: runs of a class of characters, and the search for
//! a pair of characters.

use vstd::prelude::*;
use crate::text::{digit_of, is_digit, is_space, is_space_char};

verus! {

/// The classes of characters that runs are made of.
#[derive(Clone, Copy, Debug, PartialEq, Eq, Structural)]
pub enum CharClass {
    /// ASCII whitespace.
    Space,
    /// `0` to `9`.
    Digit,
    /// What an identifier goes on with: an ASCII letter, a digit, `_`, `-`.
    IdentPart,
}

/// An ASCII letter.
pub open spec fn is_letter(c: char) -> bool {
    ('a' <= c && c <= 'z') || ('A' <= c && c <= 'Z')
}

/// What an identifier starts with: an ASCII letter or `_`.
pub open spec fn is_ident_start(c: char) -> bool {
    is_letter(c) || c == '_'
}

/// Whether `c` belongs to `class`.
pub open spec fn in_class(c: char, class: CharClass) -> bool {
    match class {
        CharClass::Space => is_space(c),
        CharClass::Digit => is_digit(c),
        CharClass::IdentPart => is_letter(c) || is_digit(c) || c == '_' || c == '-',
    }
}

/// The number of characters of `class` that follow one another in `s`
/// from position `from` on.
pub open spec fn run_len(s: Seq<char>, from: int, class: CharClass) -> nat
    decreases s.len() - from,
{
    if from < 0 || from >= s.len() || !in_class(s[from], class) {
        0
    } else {
        1 + run_len(s, from + 1, class)
    }
}

/// The number of characters between `from` and the first place at or after
/// it where `a` is followed by `b`, if there is such a place.
pub open spec fn distance_to(s: Seq<char>, from: int, a: char, b: char) -> Option<nat>
    decreases s.len() - from,
{
    if from < 0 || from + 1 >= s.len() {
        None
    } else if s[from] == a && s[from + 1] == b {
        Some(0)
    } else {
        match distance_to(s, from + 1, a, b) {
            Some(d) => Some(d + 1),
            None => None,
        }
    }
}

/// The number of characters between `from` and the first `q` at or after
/// it, if there is one.
pub open spec fn distance_to_char(s: Seq<char>, from: int, q: char) -> Option<nat>
    decreases s.len() - from,
{
    if from < 0 || from >= s.len() {
        None
    } else if s[from] == q {
        Some(0)
    } else {
        match distance_to_char(s, from + 1, q) {
            Some(d) => Some(d + 1),
            None => None,
        }
    }
}

/// A distance counted from a place `k` characters further back.
pub open spec fn further(d: Option<nat>, k: nat) -> Option<nat> {
    match d {
        Some(n) => Some(n + k),
        None => None,
    }
}

/// Whether `c` is an ASCII letter.
pub fn letter(c: char) -> (b: bool)
    ensures
        b == is_letter(c),
{
    ('a' <= c && c <= 'z') || ('A' <= c && c <= 'Z')
}

/// Whether `c` belongs to `class`.
pub fn char_in_class(c: char, class: CharClass) -> (b: bool)
    ensures
        b == in_class(c, class),
{
    match class {
        CharClass::Space => is_space_char(c),
        CharClass::Digit => digit_of(c).is_some(),
        CharClass::IdentPart => letter(c) || digit_of(c).is_some() || c == '_' || c == '-',
    }
}

/// The position after the run of characters of `class` that starts at
/// `from`.
pub(crate) fn skip_run(s: &Vec<char>, from: usize, class: CharClass) -> (end: usize)
    requires
        from <= s@.len(),
    ensures
        end == from + run_len(s@, from as int, class),
        from <= end <= s@.len(),
{
    let mut i: usize = from;
    while i < s.len() && char_in_class(s[i], class)
        invariant
            from <= i <= s@.len(),
            run_len(s@, from as int, class) == (i - from) + run_len(s@, i as int, class),
        decreases s@.len() - i,
    {
        i += 1;
    }
    i
}

/// The first position at or after `from` where `a` is followed by `b`, if
/// there is one.
pub(crate) fn find_pair(s: &Vec<char>, from: usize, a: char, b: char) -> (r: Option<usize>)
    requires
        from <= s@.len(),
    ensures
        match r {
            Some(i) => from <= i && i + 1 < s@.len() && distance_to(s@, from as int, a, b)
                == Some((i - from) as nat),
            None => distance_to(s@, from as int, a, b) is None,
        },
{
    let mut i: usize = from;
    while i < s.len() && i + 1 < s.len()
        invariant
            from <= i <= s@.len(),
            distance_to(s@, from as int, a, b) == further(
                distance_to(s@, i as int, a, b),
                (i - from) as nat,
            ),
        decreases s@.len() - i,
    {
        if s[i] == a && s[i + 1] == b {
            return Some(i);
        }
        i += 1;
    }
    None
}

/// The first position at or after `from` where `q` stands, if there is one.
pub(crate) fn find_char(s: &Vec<char>, from: usize, q: char) -> (r: Option<usize>)
    requires
        from <= s@.len(),
    ensures
        match r {
            Some(i) => from <= i < s@.len() && distance_to_char(s@, from as int, q) == Some(
                (i - from) as nat,
            ),
            None => distance_to_char(s@, from as int, q) is None,
        },
{
    let mut i: usize = from;
    while i < s.len()
        invariant
            from <= i <= s@.len(),
            distance_to_char(s@, from as int, q) == further(
                distance_to_char(s@, i as int, q),
                (i - from) as nat,
            ),
        decreases s@.len() - i,
    {
        if s[i] == q {
            return Some(i);
        }
        i += 1;
    }
    None
}

/// The characters `s[from..to]`.
pub(crate) fn slice_of(s: &Vec<char>, from: usize, to: usize) -> (r: Vec<char>)
    requires
        from <= to <= s@.len(),
    ensures
        r@ == s@.subrange(from as int, to as int),
{
    let mut r: Vec<char> = Vec::new();
    let mut i: usize = from;
    while i < to
        invariant
            from <= i <= to <= s@.len(),
            r@ == s@.subrange(from as int, i as int),
        decreases to - i,
    {
        r.push(s[i]);
        i += 1;
        assert(s@.subrange(from as int, i as int) == s@.subrange(from as int, i - 1).push(
            s@[i - 1],
        ));
    }
    r
}

} // verus!
