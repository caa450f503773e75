//! The variable bindings of a render: global bindings and lexical frames.

use vstd::prelude::*;
use crate::model::object::Object;
use crate::model::val::{inserted, lookup, Entries, Val};
use crate::model::value::Value;

verus! {

/// The bindings as mathematical data. The innermost frame is the last.
pub struct StackModel {
    pub globals: Entries,
    pub frames: Seq<Entries>,
}

/// The value bound to `name`: that of the innermost frame that binds it,
/// else the global one.
pub open spec fn stack_get(stack: StackModel, name: Seq<char>) -> Option<Val>
    decreases stack.frames.len(),
{
    if stack.frames.len() == 0 {
        lookup(stack.globals, name)
    } else {
        match lookup(stack.frames.last(), name) {
            Some(v) => Some(v),
            None => stack_get(StackModel { frames: stack.frames.drop_last(), ..stack }, name),
        }
    }
}

/// The bindings after `name` is bound to `v` globally.
pub open spec fn with_global(stack: StackModel, name: Seq<char>, v: Val) -> StackModel {
    StackModel { globals: inserted(stack.globals, name, v), ..stack }
}

/// The bindings after `name` is bound to `v` in the innermost frame, or
/// globally where there is no frame.
pub open spec fn with_local(stack: StackModel, name: Seq<char>, v: Val) -> StackModel {
    if stack.frames.len() == 0 {
        with_global(stack, name, v)
    } else {
        StackModel {
            frames: stack.frames.drop_last().push(inserted(stack.frames.last(), name, v)),
            ..stack
        }
    }
}

/// The frames as mathematical data.
pub open spec fn frames_view(frames: Seq<Object>) -> Seq<Entries> {
    Seq::new(frames.len(), |i: int| frames[i]@)
}

/// The variable bindings of a render.
#[derive(Debug)]
pub struct Stack {
    globals: Object,
    frames: Vec<Object>,
}

impl View for Stack {
    type V = StackModel;

    closed spec fn view(&self) -> StackModel {
        StackModel { globals: self.globals@, frames: frames_view(self.frames@) }
    }
}

impl Stack {
    /// No bindings and no frames.
    pub fn new() -> (s: Stack)
        ensures
            s@ == (StackModel { globals: Entries::empty(), frames: Seq::empty() }),
    {
        let s = Stack { globals: Object::new(), frames: Vec::new() };
        assert(s@.frames =~= Seq::empty());
        s
    }

    /// The given global bindings and no frames.
    pub fn with_globals(globals: Object) -> (s: Stack)
        ensures
            s@ == (StackModel { globals: globals@, frames: Seq::empty() }),
    {
        let s = Stack { globals, frames: Vec::new() };
        assert(s@.frames =~= Seq::empty());
        s
    }

    /// The value bound to `name`, if one is.
    pub fn get_root(&self, name: &str) -> (r: Option<&Value>)
        ensures
            r is Some == stack_get(self@, name@) is Some,
            r matches Some(v) ==> stack_get(self@, name@) == Some(v@),
    {
        let mut i: usize = self.frames.len();
        assert(self@.frames.take(i as int) =~= self@.frames);
        while i > 0
            invariant
                i <= self.frames@.len(),
                stack_get(self@, name@) == stack_get(
                    StackModel { frames: self@.frames.take(i as int), ..self@ },
                    name@,
                ),
            decreases i,
        {
            let ghost upto = StackModel { frames: self@.frames.take(i as int), ..self@ };
            assert(upto.frames.last() == self.frames@[i - 1]@);
            assert(upto.frames.drop_last() =~= self@.frames.take(i - 1));
            if let Some(v) = self.frames[i - 1].get(name) {
                return Some(v);
            }
            i -= 1;
        }
        assert(self@.frames.take(0).len() == 0);
        self.globals.get(name)
    }

    /// Binds `name` to `value` globally.
    pub fn set_global(&mut self, name: String, value: Value)
        ensures
            final(self)@ == with_global(old(self)@, name@, value@),
    {
        self.globals.insert(name, value);
    }

    /// Binds `name` to `value` in the innermost frame, or globally where
    /// there is no frame.
    pub fn set(&mut self, name: String, value: Value)
        ensures
            final(self)@ == with_local(old(self)@, name@, value@),
    {
        match self.frames.pop() {
            Some(frame) => {
                let mut frame = frame;
                let ghost before = frame@;
                assert(old(self)@.frames.last() == before);
                assert(frames_view(self.frames@) =~= old(self)@.frames.drop_last());
                frame.insert(name, value);
                self.frames.push(frame);
                assert(frames_view(self.frames@) =~= old(self)@.frames.drop_last().push(
                    inserted(before, name@, value@),
                ));
            },
            None => {
                assert(frames_view(self.frames@) =~= old(self)@.frames);
                self.globals.insert(name, value);
            },
        }
    }

    /// Opens a frame without bindings.
    pub fn push_frame(&mut self)
        ensures
            final(self)@ == (StackModel {
                frames: old(self)@.frames.push(Entries::empty()),
                ..old(self)@
            }),
    {
        self.frames.push(Object::new());
        assert(frames_view(self.frames@) =~= old(self)@.frames.push(Entries::empty()));
    }

    /// Closes the innermost frame, if there is one, and drops its bindings.
    pub fn pop_frame(&mut self)
        ensures
            final(self)@ == (StackModel {
                frames: if old(self)@.frames.len() == 0 {
                    old(self)@.frames
                } else {
                    old(self)@.frames.drop_last()
                },
                ..old(self)@
            }),
    {
        let popped = self.frames.pop();
        proof {
            if popped is Some {
                assert(frames_view(self.frames@) =~= old(self)@.frames.drop_last());
            } else {
                assert(frames_view(self.frames@) =~= old(self)@.frames);
            }
        }
    }
}

} // verus!
