//! Arrays: sequences of values, indexed from either end.

use vstd::prelude::*;
use crate::model::val::{
    array_source_text, clamped_len, item_at, normalized_index, render_text, State, Val,
};
use crate::model::value::{clone_items, refs_view, render_items_to, values_view, Value};
use crate::model::view::ValueView;
use crate::text::kstring_from_string;

verus! {

/// The payload of an array value.
pub type Array = Vec<Value>;

/// Read access to an array.
pub trait ArrayView: ValueView {
    /// The items of the array as mathematical data.
    spec fn items(&self) -> Seq<Val>;

    /// As a value, an array is the array of its items.
    proof fn lemma_array_model(&self)
        ensures
            self.model() == Val::Array(self.items()),
    ;

    /// The number of items.
    fn size(&self) -> (n: i64)
        ensures
            n == clamped_len(self.items().len()),
    ;

    /// The items, in their order.
    fn values(&self) -> (r: Vec<&Value>)
        ensures
            refs_view(r@) == self.items(),
    ;

    /// Whether `index` names an item. A negative index counts from the end.
    fn contains_key(&self, index: i64) -> (b: bool)
        ensures
            b == item_at(self.items(), index as int) is Some,
    ;

    /// The item that `index` names, if it names one. A negative index
    /// counts from the end.
    fn get(&self, index: i64) -> (r: Option<&Value>)
        ensures
            r is Some == item_at(self.items(), index as int) is Some,
            r matches Some(v) ==> item_at(self.items(), index as int) == Some(v@),
    ;

    /// The first item, if there is one.
    fn first(&self) -> (r: Option<&Value>)
        ensures
            r is Some == item_at(self.items(), 0) is Some,
            r matches Some(v) ==> item_at(self.items(), 0) == Some(v@),
    ;

    /// The last item, if there is one.
    fn last(&self) -> (r: Option<&Value>)
        ensures
            r is Some == item_at(self.items(), -1) is Some,
            r matches Some(v) ==> item_at(self.items(), -1) == Some(v@),
    ;
}

/// The value itself: a value is its own view.
pub fn convert_value(s: &Value) -> (v: &Value)
    ensures
        v == s,
{
    s
}

/// The position that `index` names among `max_size` items: a negative
/// index counts from the end.
pub fn convert_index(index: i64, max_size: i64) -> (i: i64)
    requires
        0 <= max_size,
    ensures
        i == normalized_index(index as int, max_size as int),
{
    if 0 <= index {
        index
    } else {
        max_size + index
    }
}

/// The position in a sequence of `len` items that `index` names, if it
/// names one.
pub fn position_of(index: i64, len: usize) -> (r: Option<usize>)
    ensures
        match r {
            Some(i) => i < len && i == normalized_index(index as int, len as int),
            None => !(0 <= normalized_index(index as int, len as int) < len),
        },
{
    if 0 <= index {
        if (index as u64) < (len as u64) {
            Some(index as usize)
        } else {
            None
        }
    } else {
        let back: u64 = if index == i64::MIN {
            9223372036854775808u64
        } else {
            (-index) as u64
        };
        if back <= len as u64 {
            Some((len as u64 - back) as usize)
        } else {
            None
        }
    }
}

/// The length `len` as a signed 64-bit number.
pub fn clamp_len(len: usize) -> (n: i64)
    ensures
        n == clamped_len(len as nat),
{
    if len as u64 <= i64::MAX as u64 {
        len as i64
    } else {
        i64::MAX
    }
}

impl ValueView for Vec<Value> {
    open spec fn model(&self) -> Val {
        Val::Array(values_view(self@))
    }

    fn render(&self) -> (s: String) {
        ArrayRender::new(self).render()
    }

    fn source(&self) -> (s: String) {
        ArraySource::new(self).render()
    }

    fn kind_name(&self) -> (s: &'static str) {
        "array"
    }

    fn query_state(&self, state: State) -> (b: bool) {
        match state {
            State::Truthy => true,
            _ => self.len() == 0,
        }
    }

    fn to_kstr(&self) -> (s: kstring::KString) {
        kstring_from_string(ArrayRender::new(self).render())
    }

    fn to_value(&self) -> (v: Value) {
        Value::Array(clone_items(self))
    }

    fn is_nil(&self) -> (b: bool) {
        false
    }

    fn is_scalar(&self) -> (b: bool) {
        false
    }

    fn is_array(&self) -> (b: bool) {
        true
    }

    fn is_object(&self) -> (b: bool) {
        false
    }
}

impl ArrayView for Vec<Value> {
    open spec fn items(&self) -> Seq<Val> {
        values_view(self@)
    }

    proof fn lemma_array_model(&self) {
    }

    fn size(&self) -> (n: i64) {
        clamp_len(self.len())
    }

    fn values(&self) -> (r: Vec<&Value>) {
        let mut r: Vec<&Value> = Vec::new();
        let mut i: usize = 0;
        while i < self.len()
            invariant
                i <= self@.len(),
                r@.len() == i,
                forall|j: int| 0 <= j < i ==> r@[j] == &self@[j],
            decreases self@.len() - i,
        {
            r.push(&self[i]);
            i += 1;
        }
        assert(refs_view(r@) =~= values_view(self@));
        r
    }

    fn contains_key(&self, index: i64) -> (b: bool) {
        position_of(index, self.len()).is_some()
    }

    fn get(&self, index: i64) -> (r: Option<&Value>) {
        match position_of(index, self.len()) {
            Some(i) => Some(convert_value(&self[i])),
            None => None,
        }
    }

    fn first(&self) -> (r: Option<&Value>) {
        self.get(0)
    }

    fn last(&self) -> (r: Option<&Value>) {
        self.get(-1)
    }
}

/// Shows an array as rendered output shows it: the items between square
/// brackets, with `, ` between them.
#[derive(Debug)]
pub struct ArrayRender<'s> {
    s: &'s Vec<Value>,
}

impl<'s> ArrayRender<'s> {
    /// A renderer of `other`.
    pub fn new(other: &'s Vec<Value>) -> (r: Self)
        ensures
            r.items() == values_view(other@),
    {
        ArrayRender { s: other }
    }

    /// The items of the array that is shown.
    pub closed spec fn items(&self) -> Seq<Val> {
        values_view(self.s@)
    }

    /// The array as rendered output shows it.
    pub fn render(&self) -> (text: String)
        ensures
            text@ == render_text(Val::Array(self.items())),
    {
        let mut text = String::new();
        text.push('[');
        render_items_to(self.s, &mut text);
        text.push(']');
        text
    }
}

/// Shows an array in its debugging form.
#[derive(Debug)]
pub struct ArraySource<'s> {
    s: &'s Vec<Value>,
}

impl<'s> ArraySource<'s> {
    /// A renderer of `other`.
    pub fn new(other: &'s Vec<Value>) -> (r: Self)
        ensures
            r.items() == values_view(other@),
    {
        ArraySource { s: other }
    }

    /// The items of the array that is shown.
    pub closed spec fn items(&self) -> Seq<Val> {
        values_view(self.s@)
    }

    /// The array in its debugging form: the rendered items between
    /// `ArraySource[` and `]`.
    pub fn render(&self) -> (text: String)
        ensures
            text@ == array_source_text(self.items()),
    {
        let mut text = String::new();
        text.append("ArraySource[");
        render_items_to(self.s, &mut text);
        text.push(']');
        text
    }
}

} // verus!
