//! From template text to the tree of nodes that is rendered.

pub mod block;
pub mod chain;
pub mod element;
pub mod expr;
pub mod language;
pub mod lexer;
pub mod number;
pub mod scan;
pub mod template;
pub mod token;
