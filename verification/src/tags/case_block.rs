//! The block `case`.

use vstd::prelude::*;
use crate::error::Error;
use crate::parser::block::{case_at, parse_case, unclosed_error};
use crate::parser::element::{elements_view, Element};
use crate::parser::language::Language;
use crate::runtime::renderable::Node;

verus! {

/// The parser of `case`: the body of the first `when` with a value equal
/// to the target is rendered.
#[derive(Clone, Copy, Debug, PartialEq, Eq, Structural)]
pub struct CaseBlock;

impl CaseBlock {
    /// The parser.
    pub fn new() -> (b: Self)
        ensures
            b == CaseBlock,
    {
        CaseBlock
    }

    /// The name of the tag that opens the block.
    pub fn start_tag(&self) -> (s: &'static str)
        ensures
            s@ == "case"@,
    {
        "case"
    }

    /// The name of the tag that closes the block.
    pub fn end_tag(&self) -> (s: &'static str)
        ensures
            s@ == "endcase"@,
    {
        "endcase"
    }

    /// The `case` that the tag at element `pos` opens, with the position
    /// after its `endcase`. The tag holds the target. Each `when` holds the
    /// values of a branch, separated by `or` or `,`, and is followed by the
    /// body of the branch; `else` is followed by the body that is rendered
    /// where no branch matches, and may occur once. Where all the bodies
    /// are blank the block is blank, and the literal text is taken out of
    /// them.
    pub fn parse(&self, elements: &Vec<Element>, pos: usize, language: &Language) -> (r:
        core::result::Result<(Node, usize), Error>)
        ensures
            match (r, case_at(elements_view(elements@), pos as int, language@)) {
                (Ok((node, end)), Ok((m, stop))) => node@ == m && end == stop && pos < end
                    <= elements@.len(),
                (Err(e), Err(m)) => e@ == m,
                _ => false,
            },
    {
        if pos < elements.len() {
            parse_case(elements, pos, language)
        } else {
            Err(unclosed_error(0))
        }
    }

    /// What the block is for.
    pub fn description(&self) -> (s: &'static str)
        ensures
            s@ == ""@,
    {
        ""
    }
}

} // verus!
