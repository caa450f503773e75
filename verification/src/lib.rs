//! A template engine for the Liquid templating language.
//!
//! Template text is compiled once into a tree of renderable nodes and then
//! rendered against variable bindings. Every function of this crate carries a
//! contract over the mathematical models defined beside it.

pub mod error;
pub mod filters;
pub mod model;
pub mod parser;
pub mod runtime;
pub mod tags;
pub mod text;

pub use crate::error::{Error, ErrorKind};
pub use crate::model::array::{Array, ArrayView};
pub use crate::model::datetime::{Date, DateTime};
pub use crate::model::object::{Object, ObjectIndex, ObjectRender, ObjectSource, ObjectView};
pub use crate::model::scalar::Decimal;
pub use crate::model::val::State;
pub use crate::model::value::{Scalar, Value};
pub use crate::model::view::ValueView;
pub use crate::parser::language::Language;
pub use crate::parser::template::parse;
pub use crate::runtime::context::Runtime;
pub use crate::runtime::renderable::{Renderable, Template};
