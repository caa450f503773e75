//! Splitting template text into text, outputs and tags.

use vstd::prelude::*;
use crate::error::{error_at, Error, ErrorKind, ErrorModel};
use crate::parser::scan::{distance_to, find_pair, slice_of};
use crate::text::is_space;

verus! {

/// The kinds of raw elements.
#[derive(Clone, Copy, Debug, PartialEq, Eq, Structural)]
pub enum RawKind {
    /// Literal characters.
    Text,
    /// What stands between `{{` and `}}`.
    Output,
    /// What stands between `{%` and `%}`.
    Tag,
}

/// A raw element as mathematical data.
pub struct RawModel {
    pub kind: RawKind,
    /// The characters of a text; for an output or a tag what stands
    /// between the delimiters, without the trim markers.
    pub content: Seq<char>,
    /// The position in the source at which the element starts.
    pub offset: int,
    /// Whether a `-` follows the opening delimiter.
    pub trim_left: bool,
    /// Whether a `-` stands before the closing delimiter.
    pub trim_right: bool,
}

/// Whether an output or a tag opens at position `at`.
pub open spec fn is_opener(s: Seq<char>, at: int) -> bool {
    0 <= at && at + 1 < s.len() && s[at] == '{' && (s[at + 1] == '{' || s[at + 1] == '%')
}

/// The number of characters from `from` up to the next opening delimiter
/// or the end.
pub open spec fn text_run(s: Seq<char>, from: int) -> nat
    decreases s.len() - from,
{
    if from < 0 || from >= s.len() || is_opener(s, from) {
        0
    } else {
        1 + text_run(s, from + 1)
    }
}

/// The output or tag whose delimiters enclose `inner`: a `-` at the start
/// of `inner` and one at its end are trim markers.
pub open spec fn marked(kind: RawKind, inner: Seq<char>, offset: int) -> RawModel {
    let left = inner.len() > 0 && inner[0] == '-';
    let start: int = if left {
        1
    } else {
        0
    };
    let right = inner.len() > start && inner.last() == '-';
    let end: int = if right {
        inner.len() - 1
    } else {
        inner.len() as int
    };
    RawModel {
        kind,
        content: inner.subrange(start, end),
        offset,
        trim_left: left,
        trim_right: right,
    }
}

/// The error for an opening delimiter without its closing one.
pub open spec fn unterminated(offset: int) -> ErrorModel {
    error_at(ErrorKind::Unterminated, "Closing delimiter expected."@, offset)
}

/// The number of characters of `s` from position `pos` on.
pub open spec fn remaining(s: Seq<char>, pos: int) -> nat {
    if 0 <= pos <= s.len() {
        (s.len() - pos) as nat
    } else {
        0
    }
}

/// The raw elements of `s` from position `pos` on, after those in `done`.
/// An output ends at the first `}}` after its `{{`, a tag at the first
/// `%}` after its `{%`; text goes up to the next opening delimiter.
pub open spec fn raw_scan(s: Seq<char>, pos: int, done: Seq<RawModel>) -> core::result::Result<
    Seq<RawModel>,
    ErrorModel,
>
    decreases remaining(s, pos),
{
    if pos < 0 || pos >= s.len() {
        Ok(done)
    } else if is_opener(s, pos) {
        let output = s[pos + 1] == '{';
        let close = if output {
            '}'
        } else {
            '%'
        };
        let kind = if output {
            RawKind::Output
        } else {
            RawKind::Tag
        };
        match distance_to(s, pos + 2, close, '}') {
            None => Err(unterminated(pos)),
            Some(d) => raw_scan(
                s,
                pos + 2 + d + 2,
                done.push(marked(kind, s.subrange(pos + 2, pos + 2 + d), pos)),
            ),
        }
    } else {
        let n = text_run(s, pos);
        raw_scan(
            s,
            pos + n,
            done.push(
                RawModel {
                    kind: RawKind::Text,
                    content: s.subrange(pos, pos + n),
                    offset: pos,
                    trim_left: false,
                    trim_right: false,
                },
            ),
        )
    }
}

/// The raw elements of `s`.
pub open spec fn raw_elements(s: Seq<char>) -> core::result::Result<Seq<RawModel>, ErrorModel> {
    raw_scan(s, 0, Seq::empty())
}

/// `s` without the whitespace at its start.
pub open spec fn strip_front(s: Seq<char>) -> Seq<char>
    decreases s.len(),
{
    if s.len() > 0 && is_space(s[0]) {
        strip_front(s.drop_first())
    } else {
        s
    }
}

/// `s` without the whitespace at its end.
pub open spec fn strip_back(s: Seq<char>) -> Seq<char>
    decreases s.len(),
{
    if s.len() > 0 && is_space(s.last()) {
        strip_back(s.drop_last())
    } else {
        s
    }
}

/// The text of the raw element at `i` after trimming: without the
/// whitespace at its start where the element before it has a trim marker
/// at its end, and without the whitespace at its end where the element
/// after it has a trim marker at its start.
pub open spec fn trimmed_text(raws: Seq<RawModel>, i: int) -> Seq<char> {
    let t = raws[i].content;
    let front = if i > 0 && raws[i - 1].trim_right {
        strip_front(t)
    } else {
        t
    };
    if i + 1 < raws.len() && raws[i + 1].trim_left {
        strip_back(front)
    } else {
        front
    }
}

/// A raw element.
#[derive(Debug)]
pub struct Raw {
    pub kind: RawKind,
    pub content: Vec<char>,
    pub offset: usize,
    pub trim_left: bool,
    pub trim_right: bool,
}

impl View for Raw {
    type V = RawModel;

    open spec fn view(&self) -> RawModel {
        RawModel {
            kind: self.kind,
            content: self.content@,
            offset: self.offset as int,
            trim_left: self.trim_left,
            trim_right: self.trim_right,
        }
    }
}

/// The raw elements as mathematical data.
pub open spec fn raws_view(raws: Seq<Raw>) -> Seq<RawModel> {
    Seq::new(raws.len(), |i: int| raws[i]@)
}

/// The position after the text that starts at `from`.
pub(crate) fn skip_text(s: &Vec<char>, from: usize) -> (end: usize)
    requires
        from <= s@.len(),
    ensures
        end == from + text_run(s@, from as int),
        from <= end <= s@.len(),
{
    let mut i: usize = from;
    while i < s.len() && !(i + 1 < s.len() && s[i] == '{' && (s[i + 1] == '{' || s[i + 1] == '%'))
        invariant
            from <= i <= s@.len(),
            text_run(s@, from as int) == (i - from) + text_run(s@, i as int),
        decreases s@.len() - i,
    {
        i += 1;
    }
    i
}

/// The output or tag whose delimiters enclose `s[from..to]`.
pub(crate) fn mark(kind: RawKind, s: &Vec<char>, from: usize, to: usize, offset: usize) -> (r: Raw)
    requires
        from <= to <= s@.len(),
    ensures
        r@ == marked(kind, s@.subrange(from as int, to as int), offset as int),
{
    let ghost inner = s@.subrange(from as int, to as int);
    let left = from < to && s[from] == '-';
    let start: usize = if left {
        from + 1
    } else {
        from
    };
    let right = start < to && s[to - 1] == '-';
    let end: usize = if right {
        to - 1
    } else {
        to
    };
    let content = slice_of(s, start, end);
    assert(content@ =~= inner.subrange(start - from, end - from));
    Raw { kind, content, offset, trim_left: left, trim_right: right }
}

/// The raw elements of `s`.
pub fn lex(s: &Vec<char>) -> (r: core::result::Result<Vec<Raw>, Error>)
    ensures
        match (r, raw_elements(s@)) {
            (Ok(raws), Ok(m)) => raws_view(raws@) == m,
            (Err(e), Err(m)) => e@ == m,
            _ => false,
        },
{
    let mut raws: Vec<Raw> = Vec::new();
    let mut pos: usize = 0;
    assert(raws_view(raws@) =~= Seq::empty());
    while pos < s.len()
        invariant
            pos <= s@.len(),
            raw_elements(s@) == raw_scan(s@, pos as int, raws_view(raws@)),
        decreases s@.len() - pos,
    {
        let ghost done = raws_view(raws@);
        if pos + 1 < s.len() && s[pos] == '{' && (s[pos + 1] == '{' || s[pos + 1] == '%') {
            let output = s[pos + 1] == '{';
            let close = if output {
                '}'
            } else {
                '%'
            };
            let kind = if output {
                RawKind::Output
            } else {
                RawKind::Tag
            };
            match find_pair(s, pos + 2, close, '}') {
                None => {
                    return Err(
                        Error::new(
                            ErrorKind::Unterminated,
                            "Closing delimiter expected.".to_owned(),
                            pos,
                        ),
                    );
                },
                Some(at) => {
                    let raw = mark(kind, s, pos + 2, at, pos);
                    raws.push(raw);
                    assert(raws_view(raws@) =~= done.push(raw@));
                    pos = at + 2;
                },
            }
        } else {
            let end = skip_text(s, pos);
            let content = slice_of(s, pos, end);
            let raw = Raw {
                kind: RawKind::Text,
                content,
                offset: pos,
                trim_left: false,
                trim_right: false,
            };
            raws.push(raw);
            assert(raws_view(raws@) =~= done.push(raw@));
            pos = end;
        }
    }
    Ok(raws)
}

/// The position after the whitespace at the start of `s`.
pub(crate) fn front_space(s: &Vec<char>) -> (n: usize)
    ensures
        n <= s@.len(),
        strip_front(s@) == s@.subrange(n as int, s@.len() as int),
{
    let mut i: usize = 0;
    assert(s@.subrange(0, s@.len() as int) =~= s@);
    while i < s.len() && crate::text::is_space_char(s[i])
        invariant
            i <= s@.len(),
            strip_front(s@) == strip_front(s@.subrange(i as int, s@.len() as int)),
        decreases s@.len() - i,
    {
        assert(s@.subrange(i as int, s@.len() as int).drop_first() =~= s@.subrange(
            i + 1,
            s@.len() as int,
        ));
        i += 1;
    }
    i
}

/// The position at which the whitespace at the end of `s[from..]` starts.
pub(crate) fn back_space(s: &Vec<char>, from: usize) -> (n: usize)
    requires
        from <= s@.len(),
    ensures
        from <= n <= s@.len(),
        strip_back(s@.subrange(from as int, s@.len() as int)) == s@.subrange(
            from as int,
            n as int,
        ),
{
    let mut i: usize = s.len();
    while i > from && crate::text::is_space_char(s[i - 1])
        invariant
            from <= i <= s@.len(),
            strip_back(s@.subrange(from as int, s@.len() as int)) == strip_back(
                s@.subrange(from as int, i as int),
            ),
        decreases i,
    {
        assert(s@.subrange(from as int, i as int).drop_last() =~= s@.subrange(
            from as int,
            i - 1,
        ));
        i -= 1;
    }
    i
}

/// The text of the raw element at `i` after trimming.
pub(crate) fn trim_text(raws: &Vec<Raw>, i: usize) -> (t: String)
    requires
        i < raws@.len(),
    ensures
        t@ == trimmed_text(raws_view(raws@), i as int),
{
    let content = &raws[i].content;
    let strip_left = i > 0 && raws[i - 1].trim_right;
    let strip_right = raws.len() - i > 1 && raws[i + 1].trim_left;
    let from: usize = if strip_left {
        front_space(content)
    } else {
        0
    };
    let to: usize = if strip_right {
        back_space(content, from)
    } else {
        content.len()
    };
    proof {
        let all = content@;
        assert(all.subrange(0, all.len() as int) =~= all);
        if !strip_left && strip_right {
            assert(all.subrange(0, to as int) == strip_back(all));
        }
    }
    crate::text::string_of_range(content, from, to)
}

} // verus!
