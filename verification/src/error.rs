//! Errors of parsing and rendering.

use vstd::prelude::*;
use crate::text::texts_view;

verus! {

/// What went wrong.
#[derive(Clone, Copy, Debug, PartialEq, Eq, Structural)]
pub enum ErrorKind {
    /// A `{{` or `{%` without its closing delimiter.
    Unterminated,
    /// A character inside a tag or an output that starts no token, or a
    /// number too large to hold.
    BadToken,
    /// A tag whose name the language does not know.
    UnknownTag,
    /// A filter whose name the language does not know.
    UnknownFilter,
    /// A token other than the one the grammar asks for.
    UnexpectedToken,
    /// A block without its end tag.
    UnclosedBlock,
    /// A second `else` in one block.
    DuplicateElse,
    /// A filter given other arguments than it takes.
    FilterArguments,
    /// A variable without a binding, where the lookup is strict.
    UnknownVariable,
    /// A value of a kind that the operation does not take.
    UnexpectedValue,
    /// Something that is no object where a drop is made.
    NotAnObject,
}

/// An error as mathematical data.
pub struct ErrorModel {
    pub kind: ErrorKind,
    pub message: Seq<char>,
    /// For a parse error, the position in the source, in characters, of
    /// the element in which it was found.
    pub offset: int,
    /// The tags around the place of a render error, innermost first.
    pub trace: Seq<Seq<char>>,
    /// The keys and values that were being looked at.
    pub context: Seq<(Seq<char>, Seq<char>)>,
}

/// The error of the given kind and message, found at `offset`.
pub open spec fn error_at(kind: ErrorKind, message: Seq<char>, offset: int) -> ErrorModel {
    ErrorModel { kind, message, offset, trace: Seq::empty(), context: Seq::empty() }
}

/// The error `e` with `tag` added to its trace.
pub open spec fn traced(e: ErrorModel, tag: Seq<char>) -> ErrorModel {
    ErrorModel { trace: e.trace.push(tag), ..e }
}

/// The error `e` with a key and a value added to its context.
pub open spec fn in_context(e: ErrorModel, key: Seq<char>, value: Seq<char>) -> ErrorModel {
    ErrorModel { context: e.context.push((key, value)), ..e }
}

/// The message for a value of the wrong kind.
pub open spec fn unexpected_value_message(expected: Seq<char>, actual: Option<Seq<char>>) -> Seq<
    char,
> {
    let found = match actual {
        Some(a) => a,
        None => "nothing"@,
    };
    "Expected "@ + expected + ", found `"@ + found + seq!['`']
}

/// The line, counted from 1, of the character at `offset` in `source`.
pub open spec fn line_of(source: Seq<char>, offset: int) -> int
    decreases offset,
{
    if offset <= 0 || offset > source.len() {
        1
    } else if source[offset - 1] == '\n' {
        line_of(source, offset - 1) + 1
    } else {
        line_of(source, offset - 1)
    }
}

/// The column, counted from 1, of the character at `offset` in `source`.
pub open spec fn column_of(source: Seq<char>, offset: int) -> int
    decreases offset,
{
    if offset <= 0 || offset > source.len() {
        1
    } else if source[offset - 1] == '\n' {
        1
    } else {
        column_of(source, offset - 1) + 1
    }
}

/// The keys and values as mathematical data.
pub open spec fn context_view(context: Seq<(String, String)>) -> Seq<(Seq<char>, Seq<char>)> {
    Seq::new(context.len(), |i: int| (context[i].0@, context[i].1@))
}

/// An error of parsing or rendering.
#[derive(Debug)]
pub struct Error {
    pub kind: ErrorKind,
    pub message: String,
    pub offset: usize,
    pub trace: Vec<String>,
    pub context: Vec<(String, String)>,
}

impl View for Error {
    type V = ErrorModel;

    open spec fn view(&self) -> ErrorModel {
        ErrorModel {
            kind: self.kind,
            message: self.message@,
            offset: self.offset as int,
            trace: texts_view(self.trace@),
            context: context_view(self.context@),
        }
    }
}

/// The result of an operation that can fail.
pub type Result<T> = core::result::Result<T, Error>;

impl Error {
    /// The error of the given kind and message, found at `offset`.
    pub fn new(kind: ErrorKind, message: String, offset: usize) -> (e: Error)
        ensures
            e@ == error_at(kind, message@, offset as int),
    {
        let e = Error { kind, message, offset, trace: Vec::new(), context: Vec::new() };
        assert(e@.trace =~= Seq::empty());
        assert(e@.context =~= Seq::empty());
        e
    }

    /// The error with `tag` added to its trace.
    pub fn trace(self, tag: String) -> (e: Error)
        ensures
            e@ == traced(self@, tag@),
    {
        let mut e = self;
        e.trace.push(tag);
        assert(e@.trace =~= self@.trace.push(tag@));
        e
    }

    /// The error with a key and a value added to its context.
    pub fn context(self, key: String, value: String) -> (e: Error)
        ensures
            e@ == in_context(self@, key@, value@),
    {
        let mut e = self;
        e.context.push((key, value));
        assert(e@.context =~= self@.context.push((key@, value@)));
        e
    }
}

/// The message for a value of the wrong kind.
pub fn unexpected_value_error_string(expected: &str, actual: Option<String>) -> (e: Error)
    ensures
        e@ == error_at(
            ErrorKind::UnexpectedValue,
            unexpected_value_message(
                expected@,
                match actual {
                    Some(a) => Some(a@),
                    None => None,
                },
            ),
            0,
        ),
{
    let found = match actual {
        Some(a) => a,
        None => "nothing".to_owned(),
    };
    let mut message = "Expected ".to_owned();
    message.append(expected);
    message.append(", found `");
    message.append(found.as_str());
    message.push('`');
    assert(message@ =~= "Expected "@ + expected@ + ", found `"@ + found@ + seq!['`']);
    Error::new(ErrorKind::UnexpectedValue, message, 0)
}

/// The error for a value of the wrong kind: `expected` names what was
/// asked for, `actual` the kind that was found.
pub fn unexpected_value_error(expected: &str, actual: Option<&str>) -> (e: Error)
    ensures
        e@ == error_at(
            ErrorKind::UnexpectedValue,
            unexpected_value_message(
                expected@,
                match actual {
                    Some(a) => Some(a@),
                    None => None,
                },
            ),
            0,
        ),
{
    let actual = match actual {
        Some(a) => Some(a.to_owned()),
        None => None,
    };
    unexpected_value_error_string(expected, actual)
}

/// The line and the column, both counted from 1, of the character at
/// `offset` in `source`.
pub(crate) fn line_column(source: &Vec<char>, offset: usize) -> (r: (usize, usize))
    requires
        offset < source@.len(),
    ensures
        r.0 == line_of(source@, offset as int),
        r.1 == column_of(source@, offset as int),
{
    let len = source.len();
    let mut line: usize = 1;
    let mut column: usize = 1;
    let mut i: usize = 0;
    while i < offset
        invariant
            i <= offset < source@.len(),
            source@.len() == len,
            line == line_of(source@, i as int),
            column == column_of(source@, i as int),
            1 <= line <= i + 1,
            1 <= column <= i + 1,
        decreases offset - i,
    {
        if source[i] == '\n' {
            line += 1;
            column = 1;
        } else {
            column += 1;
        }
        i += 1;
    }
    (line, column)
}

} // verus!
