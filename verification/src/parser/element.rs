//! The elements of a template: text, outputs and tags with their tokens.

use vstd::prelude::*;
use crate::error::{error_at, Error, ErrorKind, ErrorModel};
use crate::parser::expr::{expect_error, expected};
use crate::parser::lexer::{raws_view, trim_text, trimmed_text, Raw, RawKind, RawModel};
use crate::parser::token::{tokenize, tokens_of, tokens_view, Token, TokenKind, TokenModel};

verus! {

/// An element as mathematical data. Each holds the position in the source
/// at which it starts.
pub enum ElementModel {
    /// Literal text, after trimming.
    Text(Seq<char>, int),
    /// The tokens of an output.
    Output(Seq<TokenModel>, int),
    /// The name of a tag and the tokens behind it.
    Tag(Seq<char>, Seq<TokenModel>, int),
}

/// The error for something in a tag or an output that is no token.
pub open spec fn bad_token(offset: int) -> ErrorModel {
    error_at(ErrorKind::BadToken, "Invalid token."@, offset)
}

/// The elements of the raw elements from position `i` on, after those in
/// `done`. Text that trimming leaves empty gives no element; a tag starts
/// with its name.
pub open spec fn elements_scan(
    raws: Seq<RawModel>,
    i: int,
    done: Seq<ElementModel>,
) -> core::result::Result<Seq<ElementModel>, ErrorModel>
    decreases raws.len() - i,
{
    if i < 0 || i >= raws.len() {
        Ok(done)
    } else {
        let raw = raws[i];
        match raw.kind {
            RawKind::Text => {
                let text = trimmed_text(raws, i);
                if text.len() == 0 {
                    elements_scan(raws, i + 1, done)
                } else {
                    elements_scan(raws, i + 1, done.push(ElementModel::Text(text, raw.offset)))
                }
            },
            RawKind::Output => match tokens_of(raw.content) {
                None => Err(bad_token(raw.offset)),
                Some(tokens) => elements_scan(
                    raws,
                    i + 1,
                    done.push(ElementModel::Output(tokens, raw.offset)),
                ),
            },
            RawKind::Tag => match tokens_of(raw.content) {
                None => Err(bad_token(raw.offset)),
                Some(tokens) => if tokens.len() > 0 && tokens[0].kind == TokenKind::Identifier {
                    elements_scan(
                        raws,
                        i + 1,
                        done.push(ElementModel::Tag(tokens[0].text, tokens.drop_first(), raw.offset)),
                    )
                } else {
                    Err(expected("Tag name expected."@, raw.offset))
                },
            },
        }
    }
}

/// The elements of the raw elements.
pub open spec fn elements_of(raws: Seq<RawModel>) -> core::result::Result<
    Seq<ElementModel>,
    ErrorModel,
> {
    elements_scan(raws, 0, Seq::empty())
}

/// An element of a template.
#[derive(Debug)]
pub enum Element {
    Text { text: String, offset: usize },
    Output { tokens: Vec<Token>, offset: usize },
    Tag { name: String, tokens: Vec<Token>, offset: usize },
}

impl View for Element {
    type V = ElementModel;

    open spec fn view(&self) -> ElementModel {
        match self {
            Element::Text { text, offset } => ElementModel::Text(text@, *offset as int),
            Element::Output { tokens, offset } => ElementModel::Output(
                tokens_view(tokens@),
                *offset as int,
            ),
            Element::Tag { name, tokens, offset } => ElementModel::Tag(
                name@,
                tokens_view(tokens@),
                *offset as int,
            ),
        }
    }
}

/// The elements as mathematical data.
pub open spec fn elements_view(elements: Seq<Element>) -> Seq<ElementModel> {
    Seq::new(elements.len(), |i: int| elements[i]@)
}

/// The error for something in a tag or an output that is no token.
pub fn token_error(offset: usize) -> (e: Error)
    ensures
        e@ == bad_token(offset as int),
{
    Error::new(ErrorKind::BadToken, "Invalid token.".to_owned(), offset)
}

/// The elements of the raw elements.
pub fn elements(raws: &Vec<Raw>) -> (r: core::result::Result<Vec<Element>, Error>)
    ensures
        match (r, elements_of(raws_view(raws@))) {
            (Ok(v), Ok(m)) => elements_view(v@) == m,
            (Err(e), Err(m)) => e@ == m,
            _ => false,
        },
{
    let ghost all = raws_view(raws@);
    let mut done: Vec<Element> = Vec::new();
    let mut i: usize = 0;
    assert(elements_view(done@) =~= Seq::empty());
    while i < raws.len()
        invariant
            i <= raws@.len(),
            all == raws_view(raws@),
            elements_of(all) == elements_scan(all, i as int, elements_view(done@)),
        decreases raws@.len() - i,
    {
        let raw = &raws[i];
        assert(all[i as int] == raw@);
        let ghost before = elements_view(done@);
        match raw.kind {
            RawKind::Text => {
                let text = trim_text(raws, i);
                if text.as_str().unicode_len() > 0 {
                    let element = Element::Text { text, offset: raw.offset };
                    done.push(element);
                    assert(elements_view(done@) =~= before.push(element@));
                }
            },
            RawKind::Output => match tokenize(&raw.content) {
                None => {
                    return Err(token_error(raw.offset));
                },
                Some(tokens) => {
                    let element = Element::Output { tokens, offset: raw.offset };
                    done.push(element);
                    assert(elements_view(done@) =~= before.push(element@));
                },
            },
            RawKind::Tag => match tokenize(&raw.content) {
                None => {
                    return Err(token_error(raw.offset));
                },
                Some(tokens) => {
                    let mut tokens = tokens;
                    let ghost whole = tokens_view(tokens@);
                    if tokens.len() == 0 {
                        return Err(expect_error("Tag name expected.", raw.offset));
                    }
                    assert(whole[0] == tokens@[0]@);
                    match tokens[0].kind {
                        TokenKind::Identifier => {},
                        _ => {
                            return Err(expect_error("Tag name expected.", raw.offset));
                        },
                    }
                    let first = tokens.remove(0);
                    assert(tokens_view(tokens@) =~= whole.drop_first());
                    let element = Element::Tag { name: first.text, tokens, offset: raw.offset };
                    done.push(element);
                    assert(elements_view(done@) =~= before.push(element@));
                },
            },
        }
        i += 1;
    }
    Ok(done)
}

} // verus!
