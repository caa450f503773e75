//! Reading a date-time from text: what kind of text it is, and what is
//! left to do for each kind.

use vstd::prelude::*;
use crate::parser::lexer::{back_space, front_space, strip_back, strip_front};
use crate::parser::number::{integer_of, parse_integer};
use crate::text::chars_of;

verus! {

/// Whether the pattern matches somewhere in the text, as the `regex`
/// crate finds it; none where the crate does not accept the pattern.
pub uninterp spec fn regex_match(pattern: Seq<char>, text: Seq<char>) -> Option<bool>;

/// `regex::Regex::new`, then `regex::Regex::is_match`: whether there is a
/// match for the pattern anywhere in the text.
#[verifier::external_body]
pub(crate) fn regex_is_match(pattern: &str, text: &str) -> (r: Option<bool>)
    ensures
        r == regex_match(pattern@, text@),
{
    Some(regex::Regex::new(pattern).ok()?.is_match(text))
}

/// What is left to do to read a date-time from a text.
pub enum DateRequestModel {
    /// The text asks for the current moment.
    Now,
    /// The text holds a number of seconds since the start of 1970.
    Unix(int),
    /// The text holds a date-time written out. It ends with an offset:
    /// `+0000` was added where it had none.
    Text(Seq<char>),
}

/// Whether `s` is `now`, in whatever case.
pub open spec fn is_now(s: Seq<char>) -> bool {
    s.len() == 3 && (s[0] == 'n' || s[0] == 'N') && (s[1] == 'o' || s[1] == 'O') && (s[2] == 'w'
        || s[2] == 'W')
}

/// Whether `s` is `today`, in whatever case.
pub open spec fn is_today(s: Seq<char>) -> bool {
    s.len() == 5 && (s[0] == 't' || s[0] == 'T') && (s[1] == 'o' || s[1] == 'O') && (s[2] == 'd'
        || s[2] == 'D') && (s[3] == 'a' || s[3] == 'A') && (s[4] == 'y' || s[4] == 'Y')
}

/// The pattern of an offset at the end of a text: a sign, `0` or `1`, and
/// three digits.
pub open spec fn offset_pattern() -> Seq<char> {
    "[+-][01][0-9]{3}$"@
}

/// The first second of the year 2000, counted from the start of 1970, as
/// the range of timestamps has it.
pub open spec fn first_timestamp() -> int {
    946702800
}

/// The first second after the range of timestamps, which ends with the
/// year 2099.
pub open spec fn end_timestamp() -> int {
    4102462800
}

/// What is left to do to read a date-time from `s`. Nothing can be read
/// from an empty text. `now` and `today`, in whatever case and with
/// whitespace around them, ask for the current moment. A whole number from
/// the timestamps of the years 2000 to 2099 is a timestamp. Any other text
/// is a date-time written out, to which the offset `+0000` is added where
/// it does not end with an offset.
pub open spec fn date_request(s: Seq<char>) -> Option<DateRequestModel> {
    let word = strip_back(strip_front(s));
    if s.len() == 0 {
        None
    } else if is_now(word) || is_today(word) {
        Some(DateRequestModel::Now)
    } else if integer_of(s) matches Some(ts) && first_timestamp() <= ts < end_timestamp() {
        Some(DateRequestModel::Unix(integer_of(s)->0))
    } else if regex_match(offset_pattern(), s) == Some(true) {
        Some(DateRequestModel::Text(s))
    } else {
        Some(DateRequestModel::Text(s + " +0000"@))
    }
}

/// What is left to do to read a date-time from a text.
#[derive(Debug)]
pub enum DateRequest {
    /// The current moment is asked for.
    Now,
    /// The moment that many seconds after the start of 1970.
    Unix(i64),
    /// A date-time written out, with its offset.
    Text(String),
}

impl View for DateRequest {
    type V = DateRequestModel;

    open spec fn view(&self) -> DateRequestModel {
        match self {
            DateRequest::Now => DateRequestModel::Now,
            DateRequest::Unix(ts) => DateRequestModel::Unix(*ts as int),
            DateRequest::Text(t) => DateRequestModel::Text(t@),
        }
    }
}

/// Whether `s[from..to]` is `now` or `today`, in whatever case.
fn names_now(s: &Vec<char>, from: usize, to: usize) -> (b: bool)
    requires
        from <= to <= s@.len(),
    ensures
        b == (is_now(s@.subrange(from as int, to as int)) || is_today(
            s@.subrange(from as int, to as int),
        )),
{
    let ghost word = s@.subrange(from as int, to as int);
    if to - from == 3 {
        assert(word[0] == s@[from as int] && word[1] == s@[from + 1] && word[2] == s@[from + 2]);
        (s[from] == 'n' || s[from] == 'N') && (s[from + 1] == 'o' || s[from + 1] == 'O') && (s[from
            + 2] == 'w' || s[from + 2] == 'W')
    } else if to - from == 5 {
        assert(word[0] == s@[from as int] && word[1] == s@[from + 1] && word[2] == s@[from + 2]
            && word[3] == s@[from + 3] && word[4] == s@[from + 4]);
        (s[from] == 't' || s[from] == 'T') && (s[from + 1] == 'o' || s[from + 1] == 'O') && (s[from
            + 2] == 'd' || s[from + 2] == 'D') && (s[from + 3] == 'a' || s[from + 3] == 'A') && (
        s[from + 4] == 'y' || s[from + 4] == 'Y')
    } else {
        false
    }
}

/// What is left to do to read a date-time from `s`.
pub fn plan_date_parse(s: &str) -> (r: Option<DateRequest>)
    ensures
        match (r, date_request(s@)) {
            (Some(x), Some(m)) => x@ == m,
            (None, None) => true,
            _ => false,
        },
{
    let chars = chars_of(s);
    if chars.len() == 0 {
        return None;
    }
    let from = front_space(&chars);
    let to = back_space(&chars, from);
    if names_now(&chars, from, to) {
        return Some(DateRequest::Now);
    }
    if let Some(ts) = parse_integer(s) {
        if 946702800 <= ts && ts < 4102462800 {
            return Some(DateRequest::Unix(ts));
        }
    }
    let mut text = s.to_owned();
    match regex_is_match("[+-][01][0-9]{3}$", s) {
        Some(true) => {},
        _ => {
            text.append(" +0000");
        },
    }
    Some(DateRequest::Text(text))
}

} // verus!
