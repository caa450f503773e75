//! What a render works on: the variable bindings, expressions over them,
//! and the tree of nodes that is rendered.

pub mod context;
pub mod expression;
pub mod renderable;
pub mod stack;
