//! Drops: values supplied by the host that offer the view of an object.

use std::sync::Arc;
use vstd::prelude::*;
use crate::error::{error_at, Error, ErrorKind, ErrorModel};
use crate::model::object::{Object, ObjectView};
use crate::model::val::{Entries, State, Val};
use crate::model::value::Value;
use crate::model::view::ValueView;

verus! {

/// The error for a scalar where the entries of a drop are asked for.
pub fn object_cannot_be_a_scalar() -> (e: Error)
    ensures
        e@ == error_at(ErrorKind::NotAnObject, "DropObj cannot be a scalar."@, 0),
{
    Error::new(ErrorKind::NotAnObject, "DropObj cannot be a scalar.".to_owned(), 0)
}

/// The error for an array where the entries of a drop are asked for.
pub fn object_cannot_be_an_array() -> (e: Error)
    ensures
        e@ == error_at(ErrorKind::NotAnObject, "DropObj cannot be an array."@, 0),
{
    Error::new(ErrorKind::NotAnObject, "DropObj cannot be an array.".to_owned(), 0)
}

/// The entries of a value from which a drop is made: those of an object;
/// a scalar, an array and nil are errors.
pub open spec fn drop_entries(v: Val) -> core::result::Result<Entries, ErrorModel> {
    match v {
        Val::Object(o) => Ok(o),
        Val::Array(_) => Err(error_at(ErrorKind::NotAnObject, "DropObj cannot be an array."@, 0)),
        _ => Err(error_at(ErrorKind::NotAnObject, "DropObj cannot be a scalar."@, 0)),
    }
}

/// The object from which a drop is made of `value`.
pub fn to_ldrop(value: Value) -> (r: core::result::Result<Object, Error>)
    ensures
        match (r, drop_entries(value@)) {
            (Ok(o), Ok(m)) => o@ == m,
            (Err(e), Err(m)) => e@ == m,
            _ => false,
        },
{
    match value {
        Value::Object(o) => Ok(o),
        Value::Array(_) => Err(object_cannot_be_an_array()),
        _ => Err(object_cannot_be_a_scalar()),
    }
}

/// A value supplied by the host that offers the view of an object.
pub trait LiquidDrop: ObjectView {

}

/// A drop together with the name of its kind.
#[derive(Debug)]
pub struct DropObject<D: LiquidDrop> {
    inner: Arc<D>,
    _type: String,
}

/// A wrapper that offers a drop as a value.
#[derive(Debug)]
pub enum DropWrapper<D: LiquidDrop> {
    /// A drop that is shared.
    DropObject(DropObject<D>),
}

impl<D: LiquidDrop> DropObject<D> {
    /// The drop.
    pub closed spec fn drop(&self) -> D {
        *self.inner
    }

    /// The name of the drop's kind.
    pub closed spec fn drop_type(&self) -> Seq<char> {
        self._type@
    }
}

impl<D: LiquidDrop> DropWrapper<D> {
    /// The drop that is wrapped.
    pub open spec fn drop(&self) -> D {
        match self {
            DropWrapper::DropObject(d) => d.drop(),
        }
    }

    /// The wrapper of the drop `val`, which keeps the name of its kind.
    pub fn new(val: Arc<D>) -> (w: Self)
        ensures
            w.drop() == *val,
            w matches DropWrapper::DropObject(d) && d.drop_type() == crate::model::val::kind_name_of(
                val.model(),
            ),
    {
        let typename = val.kind_name().to_owned();
        DropWrapper::DropObject(DropObject { inner: val, _type: typename })
    }
}

impl<D: LiquidDrop> ValueView for DropWrapper<D> {
    open spec fn model(&self) -> Val {
        self.drop().model()
    }

    fn render(&self) -> (s: String) {
        match self {
            DropWrapper::DropObject(d) => d.inner.render(),
        }
    }

    fn source(&self) -> (s: String) {
        match self {
            DropWrapper::DropObject(d) => d.inner.source(),
        }
    }

    fn kind_name(&self) -> (s: &'static str) {
        match self {
            DropWrapper::DropObject(d) => d.inner.kind_name(),
        }
    }

    fn query_state(&self, state: State) -> (b: bool) {
        match self {
            DropWrapper::DropObject(d) => d.inner.query_state(state),
        }
    }

    fn to_kstr(&self) -> (s: kstring::KString) {
        match self {
            DropWrapper::DropObject(d) => d.inner.to_kstr(),
        }
    }

    fn to_value(&self) -> (v: Value) {
        match self {
            DropWrapper::DropObject(d) => d.inner.to_value(),
        }
    }

    fn is_nil(&self) -> (b: bool) {
        match self {
            DropWrapper::DropObject(d) => d.inner.is_nil(),
        }
    }

    fn is_scalar(&self) -> (b: bool) {
        match self {
            DropWrapper::DropObject(d) => d.inner.is_scalar(),
        }
    }

    fn is_array(&self) -> (b: bool) {
        match self {
            DropWrapper::DropObject(d) => d.inner.is_array(),
        }
    }

    fn is_object(&self) -> (b: bool) {
        match self {
            DropWrapper::DropObject(d) => d.inner.is_object(),
        }
    }
}

impl<D: LiquidDrop> ObjectView for DropWrapper<D> {
    open spec fn entries(&self) -> Entries {
        self.drop().entries()
    }

    proof fn lemma_object_model(&self) {
        self.drop().lemma_object_model();
    }

    fn size(&self) -> (n: i64) {
        match self {
            DropWrapper::DropObject(d) => d.inner.size(),
        }
    }

    fn keys(&self) -> (r: Vec<&str>) {
        match self {
            DropWrapper::DropObject(d) => d.inner.keys(),
        }
    }

    fn values(&self) -> (r: Vec<&Value>) {
        match self {
            DropWrapper::DropObject(d) => d.inner.values(),
        }
    }

    fn iter(&self) -> (r: Vec<(&str, &Value)>) {
        match self {
            DropWrapper::DropObject(d) => d.inner.iter(),
        }
    }

    fn contains_key(&self, index: &str) -> (b: bool) {
        match self {
            DropWrapper::DropObject(d) => d.inner.contains_key(index),
        }
    }

    fn get(&self, index: &str) -> (r: Option<&Value>) {
        match self {
            DropWrapper::DropObject(d) => d.inner.get(index),
        }
    }
}

/// The drop that stands in for one that could not be restored: an object
/// without entries.
#[derive(Clone, Copy, Debug)]
pub struct NullDrop;

impl ValueView for NullDrop {
    open spec fn model(&self) -> Val {
        Val::Object(Entries::empty())
    }

    fn render(&self) -> (s: String) {
        let mut s = String::new();
        s.push('{');
        s.push('}');
        assert(s@ =~= crate::model::val::render_text(self.model()));
        s
    }

    fn source(&self) -> (s: String) {
        let mut s = "{ObjectSource".to_owned();
        s.push('}');
        assert(s@ =~= crate::model::val::source_text(self.model()));
        s
    }

    fn kind_name(&self) -> (s: &'static str) {
        "object"
    }

    fn query_state(&self, state: State) -> (b: bool) {
        true
    }

    fn to_kstr(&self) -> (s: kstring::KString) {
        crate::text::kstring_from_string(self.render())
    }

    fn to_value(&self) -> (v: Value) {
        Value::Object(Object::new())
    }

    fn is_nil(&self) -> (b: bool) {
        false
    }

    fn is_scalar(&self) -> (b: bool) {
        false
    }

    fn is_array(&self) -> (b: bool) {
        false
    }

    fn is_object(&self) -> (b: bool) {
        true
    }
}

impl ObjectView for NullDrop {
    open spec fn entries(&self) -> Entries {
        Entries::empty()
    }

    proof fn lemma_object_model(&self) {
    }

    fn size(&self) -> (n: i64) {
        0
    }

    fn keys(&self) -> (r: Vec<&str>) {
        let r: Vec<&str> = Vec::new();
        assert(crate::model::value::strs_view(r@) =~= crate::model::val::keys_of(self.entries()));
        r
    }

    fn values(&self) -> (r: Vec<&Value>) {
        let r: Vec<&Value> = Vec::new();
        assert(crate::model::value::refs_view(r@) =~= crate::model::val::values_of(
            self.entries(),
        ));
        r
    }

    fn iter(&self) -> (r: Vec<(&str, &Value)>) {
        let r: Vec<(&str, &Value)> = Vec::new();
        assert(crate::model::value::pairs_view(r@) =~= self.entries());
        r
    }

    fn contains_key(&self, index: &str) -> (b: bool) {
        false
    }

    fn get(&self, index: &str) -> (r: Option<&Value>) {
        None
    }
}

impl LiquidDrop for NullDrop {

}

} // verus!
