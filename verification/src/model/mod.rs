//! The value model: scalars, arrays, objects, dates and nil.

pub mod array;
pub mod compare;
pub mod date_parse;
pub mod datetime;
pub mod liquid_drop;
pub mod object;
pub mod scalar;
pub mod val;
pub mod value;
pub mod view;
