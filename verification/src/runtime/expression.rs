//! Expressions: literals, and variables with a path of accessors.

use vstd::prelude::*;
use crate::error::{error_at, Error, ErrorKind, ErrorModel};
use crate::model::array::ArrayView;
use crate::model::scalar::{scalar_text, ScalarModel};
use crate::model::val::{item_at, lookup, source_text, State, Val};
use crate::model::value::{clone_value, Scalar, Value};
use crate::model::view::ValueView;
use crate::runtime::stack::{stack_get, Stack, StackModel};

verus! {

/// An expression as mathematical data: a literal value, or the name of a
/// variable with the accessors that follow it.
pub enum ExprModel {
    Literal(Val),
    Variable(Seq<char>, Seq<ExprModel>),
    /// `empty` or `blank`: no value, but a state that a value is compared
    /// with.
    State(State),
}

/// What one accessor finds in a value: in an object the value under the
/// accessor read as a key; in an array, for an accessor that is a whole
/// number, the item at that index, counted from the end if it is negative;
/// nothing otherwise.
pub open spec fn index_step(v: Val, index: Val) -> Option<Val> {
    match index {
        Val::Scalar(s) => match v {
            Val::Object(o) => lookup(o, scalar_text(s)),
            Val::Array(a) => match s {
                ScalarModel::Integer(i) => item_at(a, i),
                _ => None,
            },
            _ => None,
        },
        _ => None,
    }
}

/// The value of an expression under the bindings, if every name and every
/// accessor in it finds something.
pub open spec fn try_eval(e: ExprModel, stack: StackModel) -> Option<Val>
    decreases e, 1nat,
{
    match e {
        ExprModel::Literal(v) => Some(v),
        ExprModel::Variable(name, indexes) => match stack_get(stack, name) {
            Some(root) => walk(root, indexes, 0, stack),
            None => None,
        },
        ExprModel::State(_) => None,
    }
}

/// What the accessors from position `from` on find, starting at `v`.
pub open spec fn walk(v: Val, indexes: Seq<ExprModel>, from: int, stack: StackModel) -> Option<
    Val,
>
    decreases indexes, 0nat, indexes.len() - from,
{
    if from < 0 || from >= indexes.len() {
        Some(v)
    } else {
        match try_eval(indexes[from], stack) {
            Some(index) => match index_step(v, index) {
                Some(next) => walk(next, indexes, from + 1, stack),
                None => None,
            },
            None => None,
        }
    }
}

/// The value of an expression under the bindings: nil where a name or an
/// accessor finds nothing, or an error where the lookup is strict. A state
/// has no value and reads as nil.
pub open spec fn eval(e: ExprModel, stack: StackModel, strict: bool) -> core::result::Result<
    Val,
    ErrorModel,
> {
    match try_eval(e, stack) {
        Some(v) => Ok(v),
        None => if strict && !(e is State) {
            Err(error_at(ErrorKind::UnknownVariable, "Unknown variable "@ + expr_text(e), 0))
        } else {
            Ok(Val::Nil)
        },
    }
}

/// How an expression is written in a trace: a literal in its debugging
/// form, a variable as its name with each accessor between square brackets.
pub open spec fn expr_text(e: ExprModel) -> Seq<char>
    decreases e, 1nat,
{
    match e {
        ExprModel::Literal(v) => source_text(v),
        ExprModel::Variable(name, indexes) => name + indexes_text(indexes, indexes.len() as int),
        ExprModel::State(state) => state_text(state),
    }
}

/// How a state is written.
pub open spec fn state_text(state: State) -> Seq<char> {
    match state {
        State::Truthy => "truthy"@,
        State::DefaultValue => "default"@,
        State::Empty => "empty"@,
        State::Blank => "blank"@,
    }
}

/// The first `upto` accessors as they are written in a trace.
pub open spec fn indexes_text(indexes: Seq<ExprModel>, upto: int) -> Seq<char>
    decreases indexes, 0nat, upto,
{
    if upto <= 0 || upto > indexes.len() {
        Seq::empty()
    } else {
        indexes_text(indexes, upto - 1) + seq!['['] + expr_text(indexes[upto - 1]) + seq![']']
    }
}

/// An expression.
#[derive(Debug)]
pub enum Expression {
    /// A value written in the template.
    Literal(Value),
    /// A variable with the accessors that follow it.
    Variable(Variable),
    /// `empty` or `blank`.
    State(State),
}

/// A variable: a name and the accessors that follow it.
#[derive(Debug)]
pub struct Variable {
    pub name: String,
    pub indexes: Vec<Expression>,
}

/// The expressions as mathematical data.
pub open spec fn exprs_view(exprs: Seq<Expression>) -> Seq<ExprModel>
    decreases exprs,
{
    Seq::new(
        exprs.len(),
        |i: int|
            if 0 <= i < exprs.len() {
                exprs[i].view()
            } else {
                ExprModel::Literal(Val::Nil)
            },
    )
}

impl View for Expression {
    type V = ExprModel;

    open spec fn view(&self) -> ExprModel
        decreases self,
    {
        match self {
            Expression::Literal(v) => ExprModel::Literal(v@),
            Expression::Variable(x) => ExprModel::Variable(x.name@, exprs_view(x.indexes@)),
            Expression::State(state) => ExprModel::State(*state),
        }
    }
}

impl Variable {
    /// The variable named `name`, without accessors.
    pub fn with_literal(name: String) -> (v: Variable)
        ensures
            v.name@ == name@,
            v.indexes@.len() == 0,
    {
        Variable { name, indexes: Vec::new() }
    }
}

/// What the accessor `index` finds in `v`.
pub fn step<'a>(v: &'a Value, index: &Value) -> (r: Option<&'a Value>)
    ensures
        r is Some == index_step(v@, index@) is Some,
        r matches Some(n) ==> index_step(v@, index@) == Some(n@),
{
    match index {
        Value::Scalar(s) => match v {
            Value::Object(o) => {
                let key = s.render();
                o.get(key.as_str())
            },
            Value::Array(a) => match s {
                Scalar::Integer(i) => a.get(*i),
                _ => None,
            },
            _ => None,
        },
        _ => None,
    }
}

impl Expression {
    /// The literal expression of `value`.
    pub fn with_literal(value: Value) -> (e: Expression)
        ensures
            e@ == ExprModel::Literal(value@),
    {
        Expression::Literal(value)
    }

    /// The value of the expression under the bindings, if every name and
    /// every accessor in it finds something.
    pub fn try_evaluate<'a>(&'a self, stack: &'a Stack) -> (r: Option<&'a Value>)
        ensures
            r is Some == try_eval(self@, stack@) is Some,
            r matches Some(v) ==> try_eval(self@, stack@) == Some(v@),
        decreases self@, 1nat,
    {
        match self {
            Expression::Literal(v) => Some(v),
            Expression::Variable(x) => {
                let ghost indexes = exprs_view(x.indexes@);
                assert(self@->Variable_1 == indexes);
                assert(decreases_to!(self@ => self@->Variable_1));
                let mut current: &'a Value = match stack.get_root(x.name.as_str()) {
                    Some(root) => root,
                    None => {
                        return None;
                    },
                };
                let mut i: usize = 0;
                while i < x.indexes.len()
                    invariant
                        i <= x.indexes@.len(),
                        indexes == exprs_view(x.indexes@),
                        self@ == ExprModel::Variable(x.name@, indexes),
                        decreases_to!(self@ => indexes),
                        stack_get(stack@, x.name@) is Some,
                        try_eval(self@, stack@) == walk(current@, indexes, i as int, stack@),
                    decreases x.indexes@.len() - i,
                {
                    assert(indexes[i as int] == x.indexes@[i as int]@);
                    assert(decreases_to!(indexes => indexes[i as int]));
                    let index = match x.indexes[i].try_evaluate(stack) {
                        Some(index) => index,
                        None => {
                            return None;
                        },
                    };
                    current =
                    match step(current, index) {
                        Some(next) => next,
                        None => {
                            return None;
                        },
                    };
                    i += 1;
                }
                Some(current)
            },
            Expression::State(_) => None,
        }
    }

    /// The expression as it is written in a trace.
    pub fn render_to(&self, out: &mut String)
        ensures
            final(out)@ == old(out)@ + expr_text(self@),
        decreases self@, 1nat,
    {
        match self {
            Expression::Literal(v) => {
                let s = v.source();
                out.append(s.as_str());
            },
            Expression::Variable(x) => {
                let ghost indexes = exprs_view(x.indexes@);
                assert(self@->Variable_1 == indexes);
                assert(decreases_to!(self@ => self@->Variable_1));
                let mut s = String::new();
                s.append(x.name.as_str());
                let ghost head = s@;
                let mut i: usize = 0;
                assert(s@ =~= head + indexes_text(indexes, 0));
                while i < x.indexes.len()
                    invariant
                        i <= x.indexes@.len(),
                        indexes == exprs_view(x.indexes@),
                        decreases_to!(self@ => indexes),
                        s@ == head + indexes_text(indexes, i as int),
                    decreases x.indexes@.len() - i,
                {
                    let ghost done = indexes_text(indexes, i as int);
                    assert(indexes[i as int] == x.indexes@[i as int]@);
                    assert(decreases_to!(indexes => indexes[i as int]));
                    s.push('[');
                    x.indexes[i].render_to(&mut s);
                    s.push(']');
                    assert(s@ =~= head + (done + seq!['['] + expr_text(indexes[i as int])
                        + seq![']']));
                    i += 1;
                }
                out.append(s.as_str());
            },
            Expression::State(state) => {
                out.append(
                    match state {
                        State::Truthy => "truthy",
                        State::DefaultValue => "default",
                        State::Empty => "empty",
                        State::Blank => "blank",
                    },
                );
            },
        }
    }

    /// The expression as it is written in a trace.
    pub fn render(&self) -> (s: String)
        ensures
            s@ == expr_text(self@),
    {
        let mut s = String::new();
        self.render_to(&mut s);
        assert(s@ =~= expr_text(self@));
        s
    }

    /// Whether the expression is a state.
    pub fn is_state(&self) -> (b: bool)
        ensures
            b == (self@ is State),
    {
        match self {
            Expression::State(_) => true,
            _ => false,
        }
    }

    /// The error for this expression where it finds nothing and the lookup
    /// is strict.
    pub fn unknown(&self) -> (e: Error)
        ensures
            e@ == error_at(ErrorKind::UnknownVariable, "Unknown variable "@ + expr_text(self@), 0),
    {
        let mut message = "Unknown variable ".to_owned();
        self.render_to(&mut message);
        Error::new(ErrorKind::UnknownVariable, message, 0)
    }

    /// The value of the expression under the bindings: nil where a name or
    /// an accessor finds nothing, or an error where the lookup is strict.
    pub fn evaluate(&self, stack: &Stack, strict: bool) -> (r: core::result::Result<Value, Error>)
        ensures
            match (r, eval(self@, stack@, strict)) {
                (Ok(v), Ok(m)) => v@ == m,
                (Err(e), Err(m)) => e@ == m,
                _ => false,
            },
    {
        match self.try_evaluate(stack) {
            Some(v) => Ok(clone_value(v)),
            None => {
                if strict && !self.is_state() {
                    Err(self.unknown())
                } else {
                    Ok(Value::Nil)
                }
            },
        }
    }
}

/// What the accessors from position `from` on find, starting at `v`.
pub open spec fn path_walk(v: Val, path: Seq<ScalarModel>, from: int) -> Option<Val>
    decreases path.len() - from,
{
    if from < 0 || from >= path.len() {
        Some(v)
    } else {
        match index_step(v, Val::Scalar(path[from])) {
            Some(next) => path_walk(next, path, from + 1),
            None => None,
        }
    }
}

/// What a path finds under the bindings: its first accessor, read as a
/// string, names a variable, and each further accessor is looked up in
/// what was found so far. An empty path finds nothing.
pub open spec fn path_get(stack: StackModel, path: Seq<ScalarModel>) -> Option<Val> {
    if path.len() == 0 {
        None
    } else {
        match stack_get(stack, scalar_text(path[0])) {
            Some(root) => path_walk(root, path, 1),
            None => None,
        }
    }
}

/// The scalars as mathematical data.
pub open spec fn scalars_view(path: Seq<Scalar>) -> Seq<ScalarModel> {
    Seq::new(path.len(), |i: int| path[i]@)
}

impl Stack {
    /// What `path` finds under the bindings, if every accessor in it finds
    /// something.
    pub fn get(&self, path: &Vec<Scalar>) -> (r: Option<&Value>)
        ensures
            r is Some == path_get(self@, scalars_view(path@)) is Some,
            r matches Some(v) ==> path_get(self@, scalars_view(path@)) == Some(v@),
    {
        let ghost all = scalars_view(path@);
        if path.len() == 0 {
            return None;
        }
        assert(all[0] == path@[0]@);
        let name = path[0].render();
        let mut current: &Value = match self.get_root(name.as_str()) {
            Some(root) => root,
            None => {
                return None;
            },
        };
        let mut i: usize = 1;
        while i < path.len()
            invariant
                1 <= i <= path@.len(),
                all == scalars_view(path@),
                stack_get(self@, scalar_text(all[0])) is Some,
                path_get(self@, all) == path_walk(current@, all, i as int),
            decreases path@.len() - i,
        {
            assert(all[i as int] == path@[i as int]@);
            let index = Value::Scalar(path[i].to_scalar());
            current =
            match step(current, &index) {
                Some(next) => next,
                None => {
                    return None;
                },
            };
            i += 1;
        }
        Some(current)
    }
}

} // verus!
