//! The tag `assign`.

use vstd::prelude::*;
use crate::error::Error;
use crate::parser::block::{assign_of, parse_assign};
use crate::parser::language::Language;
use crate::parser::token::{tokens_view, Token};
use crate::runtime::renderable::Node;

verus! {

/// The parser of `assign`, which binds a name to a value.
#[derive(Clone, Copy, Debug, PartialEq, Eq, Structural)]
pub struct AssignTag;

impl AssignTag {
    /// The parser.
    pub fn new() -> (t: Self)
        ensures
            t == AssignTag,
    {
        AssignTag
    }

    /// The name of the tag.
    pub fn tag(&self) -> (s: &'static str)
        ensures
            s@ == "assign"@,
    {
        "assign"
    }

    /// The assignment that the tokens write: a name, `=`, and an
    /// expression with its filters.
    pub fn parse(&self, args: &Vec<Token>, language: &Language, offset: usize) -> (r:
        core::result::Result<Node, Error>)
        ensures
            match (r, assign_of(tokens_view(args@), language@, offset as int)) {
                (Ok(n), Ok(m)) => n@ == m,
                (Err(e), Err(m)) => e@ == m,
                _ => false,
            },
    {
        parse_assign(args, language, offset)
    }

    /// What the tag is for.
    pub fn description(&self) -> (s: &'static str)
        ensures
            s@ == ""@,
    {
        ""
    }
}

} // verus!
