//! The capabilities every value offers, whatever holds it.

use vstd::prelude::*;
use crate::model::val::{
    in_state, render_text, source_text, kind_name_of, State, Val,
};
use crate::model::value::Value;
use crate::text::kstring_text;

verus! {

/// Read access to a value: how it is shown, what kind it is, which states
/// it is in, and a copy of it.
pub trait ValueView {
    /// The value as mathematical data.
    spec fn model(&self) -> Val;

    /// The value as it is shown in rendered output.
    fn render(&self) -> (s: String)
        ensures
            s@ == render_text(self.model()),
    ;

    /// The value in its debugging form.
    fn source(&self) -> (s: String)
        ensures
            s@ == source_text(self.model()),
    ;

    /// The name of the value's kind.
    fn kind_name(&self) -> (s: &'static str)
        ensures
            s@ == kind_name_of(self.model()),
    ;

    /// Whether the value is in the state `state`.
    fn query_state(&self, state: State) -> (b: bool)
        ensures
            b == in_state(self.model(), state),
    ;

    /// The value as a string: as it is shown.
    fn to_kstr(&self) -> (s: kstring::KString)
        ensures
            kstring_text(s) == render_text(self.model()),
    ;

    /// A copy of the value that owns all it holds.
    fn to_value(&self) -> (v: Value)
        ensures
            v@ == self.model(),
    ;

    /// Whether the value is nil.
    fn is_nil(&self) -> (b: bool)
        ensures
            b == (self.model() is Nil),
    ;

    /// Whether the value is a scalar.
    fn is_scalar(&self) -> (b: bool)
        ensures
            b == (self.model() is Scalar),
    ;

    /// Whether the value is an array.
    fn is_array(&self) -> (b: bool)
        ensures
            b == (self.model() is Array),
    ;

    /// Whether the value is an object.
    fn is_object(&self) -> (b: bool)
        ensures
            b == (self.model() is Object),
    ;
}

} // verus!
