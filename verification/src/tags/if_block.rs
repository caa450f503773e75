//! The blocks `if` and `unless`.

use vstd::prelude::*;
use crate::error::Error;
use crate::parser::block::{if_at, parse_if, parse_unless, unclosed_error, unless_at};
use crate::parser::element::{elements_view, Element};
use crate::parser::language::Language;
use crate::runtime::renderable::Node;

verus! {

/// The parser of `unless`: its body is rendered where its condition fails.
#[derive(Clone, Copy, Debug, PartialEq, Eq, Structural)]
pub struct UnlessBlock;

impl UnlessBlock {
    /// The parser.
    pub fn new() -> (b: Self)
        ensures
            b == UnlessBlock,
    {
        UnlessBlock
    }

    /// The name of the tag that opens the block.
    pub fn start_tag(&self) -> (s: &'static str)
        ensures
            s@ == "unless"@,
    {
        "unless"
    }

    /// The name of the tag that closes the block.
    pub fn end_tag(&self) -> (s: &'static str)
        ensures
            s@ == "endunless"@,
    {
        "endunless"
    }

    /// The `unless` that the tag at element `pos` opens, with the position
    /// after its `endunless`. The tag holds the condition; the body up to
    /// `else` or `endunless` is rendered where the condition fails, the
    /// body behind `else` where it holds.
    pub fn parse(&self, elements: &Vec<Element>, pos: usize, language: &Language) -> (r:
        core::result::Result<(Node, usize), Error>)
        ensures
            match (r, unless_at(elements_view(elements@), pos as int, language@)) {
                (Ok((node, end)), Ok((m, stop))) => node@ == m && end == stop && pos < end
                    <= elements@.len(),
                (Err(e), Err(m)) => e@ == m,
                _ => false,
            },
    {
        if pos < elements.len() {
            parse_unless(elements, pos, language)
        } else {
            Err(unclosed_error(0))
        }
    }

    /// What the block is for.
    pub fn description(&self) -> (s: &'static str)
        ensures
            s@ == ""@,
    {
        ""
    }
}

/// The parser of `if`: its body is rendered where its condition holds.
#[derive(Clone, Copy, Debug, PartialEq, Eq, Structural)]
pub struct IfBlock;

impl IfBlock {
    /// The parser.
    pub fn new() -> (b: Self)
        ensures
            b == IfBlock,
    {
        IfBlock
    }

    /// The name of the tag that opens the block.
    pub fn start_tag(&self) -> (s: &'static str)
        ensures
            s@ == "if"@,
    {
        "if"
    }

    /// The name of the tag that closes the block.
    pub fn end_tag(&self) -> (s: &'static str)
        ensures
            s@ == "endif"@,
    {
        "endif"
    }

    /// The `if` that the tag at element `pos` opens, with the position
    /// after its `endif`. The tag holds the condition; the body up to
    /// `elsif`, `else` or `endif` is rendered where the condition holds.
    /// An `elsif` opens an `if` of its own in place of the second body.
    pub fn parse(&self, elements: &Vec<Element>, pos: usize, language: &Language) -> (r:
        core::result::Result<(Node, usize), Error>)
        ensures
            match (r, if_at(elements_view(elements@), pos as int, language@, "if"@)) {
                (Ok((node, end)), Ok((m, stop))) => node@ == m && end == stop && pos < end
                    <= elements@.len(),
                (Err(e), Err(m)) => e@ == m,
                _ => false,
            },
    {
        if pos < elements.len() {
            parse_if("if", elements, pos, language)
        } else {
            Err(unclosed_error(0))
        }
    }

    /// What the block is for.
    pub fn description(&self) -> (s: &'static str)
        ensures
            s@ == ""@,
    {
        ""
    }
}

} // verus!
