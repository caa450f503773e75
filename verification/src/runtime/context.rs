//! The state of a render.

use vstd::prelude::*;
use crate::model::object::Object;
use crate::model::val::Entries;
use crate::model::value::Value;
use crate::runtime::stack::{with_global, Stack, StackModel};

verus! {

/// The state of a render as mathematical data.
pub struct RuntimeModel {
    pub stack: StackModel,
    /// Whether a variable without a binding is an error.
    pub strict: bool,
}

/// The state of a render: the variable bindings, and whether a variable
/// without a binding is an error or reads as nil.
#[derive(Debug)]
pub struct Runtime {
    pub stack: Stack,
    pub strict: bool,
}

impl View for Runtime {
    type V = RuntimeModel;

    open spec fn view(&self) -> RuntimeModel {
        RuntimeModel { stack: self.stack@, strict: self.strict }
    }
}

impl Runtime {
    /// A runtime without bindings, in which a variable without a binding
    /// reads as nil.
    pub fn new() -> (r: Runtime)
        ensures
            r@ == (RuntimeModel {
                stack: StackModel { globals: Entries::empty(), frames: Seq::empty() },
                strict: false,
            }),
    {
        Runtime { stack: Stack::new(), strict: false }
    }

    /// A runtime with the given global bindings.
    pub fn with_globals(globals: Object, strict: bool) -> (r: Runtime)
        ensures
            r@ == (RuntimeModel {
                stack: StackModel { globals: globals@, frames: Seq::empty() },
                strict,
            }),
    {
        Runtime { stack: Stack::with_globals(globals), strict }
    }

    /// Binds `name` to `value` globally.
    pub fn set_global(&mut self, name: String, value: Value)
        ensures
            final(self)@ == (RuntimeModel {
                stack: with_global(old(self)@.stack, name@, value@),
                ..old(self)@
            }),
    {
        self.stack.set_global(name, value);
    }

    /// The variable bindings.
    pub fn stack(&self) -> (s: &Stack)
        ensures
            s@ == self@.stack,
    {
        &self.stack
    }
}

} // verus!
