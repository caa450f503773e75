//! The tags and blocks of the language.

pub mod assign_tag;
pub mod case_block;
pub mod condition;
pub mod if_block;
