//! The filters `size` and `default`.

use vstd::prelude::*;
use vstd::string::StringSliceAdditionalSpecFns;
use crate::error::{error_at, Error, ErrorKind, ErrorModel};
use crate::model::array::clamp_len;
use crate::model::scalar::scalar_text;
use crate::model::val::{clamped_len, in_state, State, Val};
use crate::model::scalar::ScalarModel;
use crate::model::value::{clone_value, values_view, Scalar, Value};
use crate::model::view::ValueView;
use crate::runtime::context::{Runtime, RuntimeModel};
use crate::runtime::expression::{eval, exprs_view, ExprModel, Expression};

verus! {

/// A filter with its arguments, as mathematical data.
pub enum FilterModel {
    /// `size`.
    Size,
    /// `default`, with the expression for the value to fall back on.
    Default(ExprModel),
}

/// The arguments written behind a filter's name, as mathematical data.
pub struct ArgsModel {
    pub positional: Seq<ExprModel>,
    pub keyword: Seq<(Seq<char>, ExprModel)>,
}

/// The number of bytes of `text` in UTF-8, as a machine word holds it.
pub open spec fn byte_len(text: Seq<char>) -> nat {
    (vstd::utf8::encode_utf8(text).len() as usize) as nat
}

/// The size of a value: the number of bytes of a scalar as a string in
/// UTF-8, the number of items of an array, the number of entries of an
/// object, and 0 for nil.
pub open spec fn size_of(v: Val) -> int {
    match v {
        Val::Nil => 0,
        Val::Scalar(s) => clamped_len(byte_len(scalar_text(s))),
        Val::Array(a) => clamped_len(a.len()),
        Val::Object(o) => clamped_len(o.len()),
    }
}

/// What a filter makes of `input`.
pub open spec fn filter_apply(f: FilterModel, input: Val, rt: RuntimeModel) -> core::result::Result<
    Val,
    ErrorModel,
> {
    match f {
        FilterModel::Size => Ok(Val::Scalar(ScalarModel::Integer(size_of(input)))),
        FilterModel::Default(e) => if in_state(input, State::DefaultValue) {
            eval(e, rt.stack, rt.strict)
        } else {
            Ok(input)
        },
    }
}

/// The error for a filter given other arguments than it takes.
pub open spec fn bad_arguments(offset: int) -> ErrorModel {
    error_at(ErrorKind::FilterArguments, "Invalid number of arguments."@, offset)
}

/// The keyword arguments as mathematical data.
pub open spec fn keywords_view(keyword: Seq<(String, Expression)>) -> Seq<(Seq<char>, ExprModel)> {
    Seq::new(keyword.len(), |i: int| (keyword[i].0@, keyword[i].1@))
}

/// The arguments written behind a filter's name.
#[derive(Debug)]
pub struct FilterArguments {
    pub positional: Vec<Expression>,
    pub keyword: Vec<(String, Expression)>,
}

impl View for FilterArguments {
    type V = ArgsModel;

    open spec fn view(&self) -> ArgsModel {
        ArgsModel {
            positional: exprs_view(self.positional@),
            keyword: keywords_view(self.keyword@),
        }
    }
}

/// The filter `size` with its arguments bound: it has none.
#[derive(Debug)]
pub struct SizeFilter;

/// The filter `default` with its arguments bound.
#[derive(Debug)]
pub struct DefaultFilter {
    pub default: Expression,
}

/// A filter with its arguments bound.
#[derive(Debug)]
pub enum Filter {
    Size(SizeFilter),
    Default(DefaultFilter),
}

impl View for Filter {
    type V = FilterModel;

    open spec fn view(&self) -> FilterModel {
        match self {
            Filter::Size(_) => FilterModel::Size,
            Filter::Default(f) => FilterModel::Default(f.default@),
        }
    }
}

/// The error for a filter given other arguments than it takes.
pub fn arguments_error(offset: usize) -> (e: Error)
    ensures
        e@ == bad_arguments(offset as int),
{
    Error::new(ErrorKind::FilterArguments, "Invalid number of arguments.".to_owned(), offset)
}

/// The parser of the filter `size`, which returns the size of its input:
/// for an array or an object the number of its elements, for other values
/// the length of their string representation.
#[derive(Clone, Copy, Debug)]
pub struct Size;

/// The parser of the filter `default`, which sets a default value for its
/// input.
#[derive(Clone, Copy, Debug)]
pub struct Default;

/// What `size` makes of its arguments: it takes none.
pub open spec fn size_bound(args: ArgsModel, offset: int) -> core::result::Result<
    FilterModel,
    ErrorModel,
> {
    if args.positional.len() == 0 && args.keyword.len() == 0 {
        Ok(FilterModel::Size)
    } else {
        Err(bad_arguments(offset))
    }
}

/// What `default` makes of its arguments: it takes one, by position.
pub open spec fn default_bound(args: ArgsModel, offset: int) -> core::result::Result<
    FilterModel,
    ErrorModel,
> {
    if args.positional.len() == 1 && args.keyword.len() == 0 {
        Ok(FilterModel::Default(args.positional[0]))
    } else {
        Err(bad_arguments(offset))
    }
}

impl Size {
    /// The name under which the filter is known.
    pub fn name(&self) -> (s: &'static str)
        ensures
            s@ == "size"@,
    {
        "size"
    }

    /// The filter with the given arguments bound.
    pub fn parse(&self, args: FilterArguments, offset: usize) -> (r: core::result::Result<
        Filter,
        Error,
    >)
        ensures
            match (r, size_bound(args@, offset as int)) {
                (Ok(f), Ok(m)) => f@ == m,
                (Err(e), Err(m)) => e@ == m,
                _ => false,
            },
    {
        if args.positional.len() == 0 && args.keyword.len() == 0 {
            Ok(Filter::Size(SizeFilter))
        } else {
            Err(arguments_error(offset))
        }
    }
}

impl Default {
    /// The name under which the filter is known.
    pub fn name(&self) -> (s: &'static str)
        ensures
            s@ == "default"@,
    {
        "default"
    }

    /// The filter with the given arguments bound.
    pub fn parse(&self, args: FilterArguments, offset: usize) -> (r: core::result::Result<
        Filter,
        Error,
    >)
        ensures
            match (r, default_bound(args@, offset as int)) {
                (Ok(f), Ok(m)) => f@ == m,
                (Err(e), Err(m)) => e@ == m,
                _ => false,
            },
    {
        let mut args = args;
        if args.positional.len() == 1 && args.keyword.len() == 0 {
            let ghost first = args.positional@[0]@;
            assert(exprs_view(args.positional@)[0] == first);
            match args.positional.pop() {
                Some(default) => Ok(Filter::Default(DefaultFilter { default })),
                None => Err(arguments_error(offset)),
            }
        } else {
            Err(arguments_error(offset))
        }
    }
}

impl SizeFilter {
    /// The size of `input`.
    pub fn evaluate(&self, input: &Value, runtime: &Runtime) -> (r: core::result::Result<
        Value,
        Error,
    >)
        ensures
            match (r, filter_apply(FilterModel::Size, input@, runtime@)) {
                (Ok(v), Ok(m)) => v@ == m,
                (Err(e), Err(m)) => e@ == m,
                _ => false,
            },
    {
        match input {
            Value::Scalar(x) => {
                let text = x.render();
                let n = text.as_str().len();
                assert(n == byte_len(scalar_text(x@)));
                Ok(Value::Scalar(Scalar::Integer(clamp_len(n))))
            },
            Value::Array(x) => {
                assert(input@->Array_0 == values_view(x@));
                assert(values_view(x@).len() == x@.len());
                Ok(Value::Scalar(Scalar::Integer(clamp_len(x.len()))))
            },
            Value::Object(x) => {
                assert(input@->Object_0 == x@);
                Ok(Value::Scalar(Scalar::Integer(clamp_len(x.len()))))
            },
            _ => Ok(Value::Scalar(Scalar::Integer(0))),
        }
    }
}

impl DefaultFilter {
    /// `input`, or the value to fall back on where `input` is nil, `false`
    /// or empty.
    pub fn evaluate(&self, input: &Value, runtime: &Runtime) -> (r: core::result::Result<
        Value,
        Error,
    >)
        ensures
            match (r, filter_apply(FilterModel::Default(self.default@), input@, runtime@)) {
                (Ok(v), Ok(m)) => v@ == m,
                (Err(e), Err(m)) => e@ == m,
                _ => false,
            },
    {
        if input.query_state(State::DefaultValue) {
            self.default.evaluate(&runtime.stack, runtime.strict)
        } else {
            Ok(clone_value(input))
        }
    }
}

impl Filter {
    /// What the filter makes of `input`.
    pub fn evaluate(&self, input: &Value, runtime: &Runtime) -> (r: core::result::Result<
        Value,
        Error,
    >)
        ensures
            match (r, filter_apply(self@, input@, runtime@)) {
                (Ok(v), Ok(m)) => v@ == m,
                (Err(e), Err(m)) => e@ == m,
                _ => false,
            },
    {
        match self {
            Filter::Size(f) => f.evaluate(input, runtime),
            Filter::Default(f) => f.evaluate(input, runtime),
        }
    }
}

} // verus!
