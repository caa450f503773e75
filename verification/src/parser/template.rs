//! Parsing template text.

use vstd::prelude::*;
use crate::error::{column_of, line_column, line_of, Error, ErrorModel};
use crate::parser::block::{no_stops, nodes_of, parse_body, Stops};
use crate::parser::element::{elements, elements_of};
use crate::parser::language::{Language, LanguageModel};
use crate::parser::lexer::{lex, raw_elements};
use crate::runtime::renderable::{nodes_view, Node, NodeModel};
use crate::text::chars_of;

verus! {

/// The tree that the template text `source` writes in `language`: the
/// text is split into raw elements, these are trimmed and read as
/// elements, and the elements are handed to the parsers of the language.
pub open spec fn template_of(source: Seq<char>, language: LanguageModel) -> core::result::Result<
    Seq<NodeModel>,
    ErrorModel,
> {
    match raw_elements(source) {
        Err(e) => Err(e),
        Ok(raws) => match elements_of(raws) {
            Err(e) => Err(e),
            Ok(elements) => nodes_of(elements, language),
        },
    }
}

/// Parsing is a function of the source and the language: equal sources
/// give equal trees, and equal errors.
pub proof fn lemma_parse_deterministic(a: Seq<char>, b: Seq<char>, language: LanguageModel)
    requires
        a == b,
    ensures
        template_of(a, language) == template_of(b, language),
{
}

/// The nodes that the template text `text` writes in `language`.
pub fn parse(text: &str, language: &Language) -> (r: core::result::Result<Vec<Node>, Error>)
    ensures
        match (r, template_of(text@, language@)) {
            (Ok(nodes), Ok(m)) => nodes_view(nodes@) == m,
            (Err(e), Err(m)) => e@ == m,
            _ => false,
        },
{
    let source = chars_of(text);
    let raws = match lex(&source) {
        Ok(raws) => raws,
        Err(e) => {
            return Err(e);
        },
    };
    let found = match elements(&raws) {
        Ok(found) => found,
        Err(e) => {
            return Err(e);
        },
    };
    let stops = Stops { first: "", second: "", third: "" };
    proof {
        reveal_strlit("");
        assert(stops@.first =~= Seq::<char>::empty());
        assert(stops@ == no_stops());
    }
    match parse_body(&found, 0, &stops, language) {
        Err(e) => Err(e),
        Ok((nodes, _)) => Ok(nodes),
    }
}

/// Where in `text` a parse error was found: the line and the column, both
/// counted from 1, of the position that the error holds; none where that
/// position lies outside `text`.
pub fn locate(text: &str, error: &Error) -> (r: Option<(usize, usize)>)
    ensures
        match r {
            Some((line, column)) => error@.offset < text@.len() && line == line_of(
                text@,
                error@.offset,
            ) && column == column_of(text@, error@.offset),
            None => error@.offset >= text@.len(),
        },
{
    let source = chars_of(text);
    if error.offset < source.len() {
        Some(line_column(&source, error.offset))
    } else {
        None
    }
}

/// The line of `text` on which a parse error was found, without its line
/// break; none where the position that the error holds lies outside `text`.
pub open spec fn excerpt_of(source: Seq<char>, offset: int) -> Seq<char> {
    source.subrange(line_start(source, offset), line_end(source, offset))
}

/// The position at which the line that holds `offset` starts.
pub open spec fn line_start(source: Seq<char>, offset: int) -> int
    decreases offset,
{
    if offset <= 0 || offset > source.len() {
        0
    } else if source[offset - 1] == '\n' {
        offset
    } else {
        line_start(source, offset - 1)
    }
}

/// The position at which the line that holds `offset` ends.
pub open spec fn line_end(source: Seq<char>, offset: int) -> int
    decreases source.len() - offset,
{
    if offset < 0 || offset >= source.len() {
        source.len() as int
    } else if source[offset] == '\n' {
        offset
    } else {
        line_end(source, offset + 1)
    }
}

/// The line of `text` on which a parse error was found.
pub fn excerpt(text: &str, error: &Error) -> (r: Option<String>)
    ensures
        match r {
            Some(line) => error@.offset < text@.len() && line@ == excerpt_of(
                text@,
                error@.offset,
            ),
            None => error@.offset >= text@.len(),
        },
{
    let source = chars_of(text);
    let offset = error.offset;
    if offset >= source.len() {
        return None;
    }
    let mut start: usize = offset;
    while start > 0 && source[start - 1] != '\n'
        invariant
            start <= offset < source@.len(),
            line_start(source@, offset as int) == line_start(source@, start as int),
        decreases start,
    {
        start -= 1;
    }
    let mut end: usize = offset;
    while end < source.len() && source[end] != '\n'
        invariant
            offset <= end <= source@.len(),
            line_end(source@, offset as int) == line_end(source@, end as int),
        decreases source@.len() - end,
    {
        end += 1;
    }
    Some(crate::text::string_of_range(&source, start, end))
}

} // verus!
