//! The conditions of `if` and `unless`.

use vstd::prelude::*;
use crate::error::{
    error_at, unexpected_value_error, unexpected_value_message, Error, ErrorKind, ErrorModel,
};
use crate::model::compare::{val_eq, val_order, value_eq, value_order, Order, lemma_val_eq_reflexive};
use crate::model::val::{in_state, kind_name_of, lookup, render_text, State, Val};
use crate::model::scalar::ScalarModel;
use crate::model::value::{values_view, Scalar, Value};
use crate::model::view::ValueView;
use crate::parser::expr::{
    expect_error, expected, is_word, parse_value, tokens_left, value_at, word_is,
};
use crate::parser::token::{tokens_view, Token, TokenKind, TokenModel};
use crate::runtime::context::{Runtime, RuntimeModel};
use crate::runtime::expression::{eval, expr_text, try_eval, ExprModel, Expression};
use crate::text::{has_substring, kstring_as_str, str_contains, str_eq};

verus! {

/// The operators that compare two values.
#[derive(Clone, Copy, Debug, PartialEq, Eq, Structural)]
pub enum ComparisonOperator {
    Equals,
    NotEquals,
    LessThan,
    GreaterThan,
    LessThanEquals,
    GreaterThanEquals,
    Contains,
}

/// The operator that `s` writes, if it writes one. `<>` writes the same
/// operator as `!=`.
pub open spec fn operator_of(s: Seq<char>) -> Option<ComparisonOperator> {
    if s == "=="@ {
        Some(ComparisonOperator::Equals)
    } else if s == "!="@ || s == "<>"@ {
        Some(ComparisonOperator::NotEquals)
    } else if s == "<"@ {
        Some(ComparisonOperator::LessThan)
    } else if s == ">"@ {
        Some(ComparisonOperator::GreaterThan)
    } else if s == "<="@ {
        Some(ComparisonOperator::LessThanEquals)
    } else if s == ">="@ {
        Some(ComparisonOperator::GreaterThanEquals)
    } else if s == "contains"@ {
        Some(ComparisonOperator::Contains)
    } else {
        None
    }
}

/// How an operator is written.
pub open spec fn operator_text(op: ComparisonOperator) -> Seq<char> {
    match op {
        ComparisonOperator::Equals => "=="@,
        ComparisonOperator::NotEquals => "!="@,
        ComparisonOperator::LessThanEquals => "<="@,
        ComparisonOperator::GreaterThanEquals => ">="@,
        ComparisonOperator::LessThan => "<"@,
        ComparisonOperator::GreaterThan => ">"@,
        ComparisonOperator::Contains => "contains"@,
    }
}

impl ComparisonOperator {
    /// The operator that `s` writes, if it writes one.
    pub fn from_str(s: &str) -> (r: core::result::Result<ComparisonOperator, ()>)
        ensures
            match r {
                Ok(op) => operator_of(s@) == Some(op),
                Err(_) => operator_of(s@) is None,
            },
    {
        if str_eq(s, "==") {
            Ok(ComparisonOperator::Equals)
        } else if str_eq(s, "!=") || str_eq(s, "<>") {
            Ok(ComparisonOperator::NotEquals)
        } else if str_eq(s, "<") {
            Ok(ComparisonOperator::LessThan)
        } else if str_eq(s, ">") {
            Ok(ComparisonOperator::GreaterThan)
        } else if str_eq(s, "<=") {
            Ok(ComparisonOperator::LessThanEquals)
        } else if str_eq(s, ">=") {
            Ok(ComparisonOperator::GreaterThanEquals)
        } else if str_eq(s, "contains") {
            Ok(ComparisonOperator::Contains)
        } else {
            Err(())
        }
    }

    /// The operator as it is written.
    pub fn as_str(&self) -> (s: &'static str)
        ensures
            s@ == operator_text(*self),
    {
        match self {
            ComparisonOperator::Equals => "==",
            ComparisonOperator::NotEquals => "!=",
            ComparisonOperator::LessThanEquals => "<=",
            ComparisonOperator::GreaterThanEquals => ">=",
            ComparisonOperator::LessThan => "<",
            ComparisonOperator::GreaterThan => ">",
            ComparisonOperator::Contains => "contains",
        }
    }
}

/// Whether one of the items is equal to `b`.
pub open spec fn has_equal_item(items: Seq<Val>, b: Val) -> bool {
    exists|i: int| 0 <= i < items.len() && val_eq(#[trigger] items[i], b)
}

/// Whether `a` contains `b`. A string contains the strings that occur in
/// it, an object the keys of its entries, `b` being read as a string in both
/// cases; an array contains the values equal to one of its items. Any
/// other `a` is an error.
pub open spec fn contains_spec(a: Val, b: Val) -> core::result::Result<bool, ErrorModel> {
    match a {
        Val::Scalar(ScalarModel::Str(s)) => Ok(has_substring(s, render_text(b))),
        Val::Object(o) => Ok(lookup(o, render_text(b)) is Some),
        Val::Array(items) => Ok(has_equal_item(items, b)),
        _ => Err(
            error_at(
                ErrorKind::UnexpectedValue,
                unexpected_value_message("string | array | object"@, Some(kind_name_of(a))),
                0,
            ),
        ),
    }
}

/// An array contains each of its items.
pub proof fn lemma_array_contains_item(items: Seq<Val>, i: int)
    requires
        0 <= i < items.len(),
    ensures
        contains_spec(Val::Array(items), items[i]) == Ok::<bool, ErrorModel>(true),
{
    lemma_val_eq_reflexive(items[i]);
    let b = items[i];
    assert(has_equal_item(items, b)) by {
        assert(0 <= i < items.len() && val_eq(items[i], b));
    }
}

/// A string contains itself.
pub proof fn lemma_string_contains_itself(s: Seq<char>)
    ensures
        contains_spec(Val::Scalar(ScalarModel::Str(s)), Val::Scalar(ScalarModel::Str(s))) == Ok::<
            bool,
            ErrorModel,
        >(true),
{
    assert(s.subrange(0, 0 + s.len() as int) == s);
}

/// Whether `a` contains `b`.
pub fn contains_check(a: &Value, b: &Value) -> (r: core::result::Result<bool, Error>)
    ensures
        match (r, contains_spec(a@, b@)) {
            (Ok(x), Ok(y)) => x == y,
            (Err(e), Err(m)) => e@ == m,
            _ => false,
        },
{
    match a {
        Value::Scalar(Scalar::Str(s)) => {
            let needle = b.to_kstr();
            Ok(str_contains(s.as_str(), kstring_as_str(&needle)))
        },
        Value::Object(o) => {
            let key = b.to_kstr();
            Ok(o.contains_key(kstring_as_str(&key)))
        },
        Value::Array(items) => {
            let ghost all = values_view(items@);
            assert(a@->Array_0 == all);
            let mut i: usize = 0;
            while i < items.len()
                invariant
                    i <= items@.len(),
                    all == values_view(items@),
                    a@ == Val::Array(all),
                    forall|j: int| 0 <= j < i ==> !val_eq(#[trigger] all[j], b@),
                decreases items@.len() - i,
            {
                assert(all[i as int] == items@[i as int]@);
                if value_eq(&items[i], b) {
                    assert(has_equal_item(all, b@)) by {
                        assert(0 <= i < all.len() && val_eq(all[i as int], b@));
                    }
                    return Ok(true);
                }
                i += 1;
            }
            Ok(false)
        },
        _ => Err(unexpected_value_error("string | array | object", Some(a.kind_name()))),
    }
}

/// A condition as mathematical data.
pub enum CondModel {
    Binary(ExprModel, ComparisonOperator, ExprModel),
    Existence(ExprModel),
    Conjunction(Box<CondModel>, Box<CondModel>),
    Disjunction(Box<CondModel>, Box<CondModel>),
}

/// What comparing `a` with `b` by `op` gives. Two values that cannot be
/// ordered are neither less nor greater than one another.
pub open spec fn compare_spec(op: ComparisonOperator, a: Val, b: Val) -> core::result::Result<
    bool,
    ErrorModel,
> {
    match op {
        ComparisonOperator::Equals => Ok(val_eq(a, b)),
        ComparisonOperator::NotEquals => Ok(!val_eq(a, b)),
        ComparisonOperator::LessThan => Ok(val_order(a, b) == Some(Order::Less)),
        ComparisonOperator::GreaterThan => Ok(val_order(a, b) == Some(Order::Greater)),
        ComparisonOperator::LessThanEquals => Ok(
            val_order(a, b) == Some(Order::Less) || val_order(a, b) == Some(Order::Equal),
        ),
        ComparisonOperator::GreaterThanEquals => Ok(
            val_order(a, b) == Some(Order::Greater) || val_order(a, b) == Some(Order::Equal),
        ),
        ComparisonOperator::Contains => contains_spec(a, b),
    }
}

/// Whether a condition holds in a runtime. A value is equal to `empty` or
/// `blank` where it is in that state. The right side of `and` is not
/// looked at where the left side fails, nor that of `or` where the left
/// side holds.
pub open spec fn cond_eval(c: CondModel, rt: RuntimeModel) -> core::result::Result<
    bool,
    ErrorModel,
>
    decreases c,
{
    match c {
        CondModel::Binary(lh, op, rh) => match eval(lh, rt.stack, rt.strict) {
            Err(e) => Err(e),
            Ok(a) => match eval(rh, rt.stack, rt.strict) {
                Err(e) => Err(e),
                Ok(b) => if (op == ComparisonOperator::Equals || op
                    == ComparisonOperator::NotEquals) && (lh is State || rh is State) {
                    let holds = if rh is State {
                        in_state(a, rh->State_0)
                    } else {
                        in_state(b, lh->State_0)
                    };
                    Ok(holds == (op == ComparisonOperator::Equals))
                } else {
                    compare_spec(op, a, b)
                },
            },
        },
        CondModel::Existence(lh) => Ok(
            in_state(
                match try_eval(lh, rt.stack) {
                    Some(v) => v,
                    None => Val::Nil,
                },
                State::Truthy,
            ),
        ),
        CondModel::Conjunction(left, right) => match cond_eval(*left, rt) {
            Err(e) => Err(e),
            Ok(false) => Ok(false),
            Ok(true) => cond_eval(*right, rt),
        },
        CondModel::Disjunction(left, right) => match cond_eval(*left, rt) {
            Err(e) => Err(e),
            Ok(true) => Ok(true),
            Ok(false) => cond_eval(*right, rt),
        },
    }
}

/// How a condition is written in a trace.
pub open spec fn cond_text(c: CondModel) -> Seq<char>
    decreases c,
{
    match c {
        CondModel::Binary(lh, op, rh) => expr_text(lh) + seq![' '] + operator_text(op) + seq![' ']
            + expr_text(rh),
        CondModel::Existence(lh) => expr_text(lh),
        CondModel::Conjunction(left, right) => cond_text(*left) + " and "@ + cond_text(*right),
        CondModel::Disjunction(left, right) => cond_text(*left) + " or "@ + cond_text(*right),
    }
}

/// Two expressions with an operator between them.
#[derive(Debug)]
pub struct BinaryCondition {
    pub lh: Expression,
    pub comparison: ComparisonOperator,
    pub rh: Expression,
}

/// An expression that is asked whether it is truthy.
#[derive(Debug)]
pub struct ExistenceCondition {
    pub lh: Expression,
}

/// A condition.
#[derive(Debug)]
pub enum Condition {
    Binary(BinaryCondition),
    Existence(ExistenceCondition),
    Conjunction(Box<Condition>, Box<Condition>),
    Disjunction(Box<Condition>, Box<Condition>),
}

impl View for Condition {
    type V = CondModel;

    open spec fn view(&self) -> CondModel
        decreases self,
    {
        match self {
            Condition::Binary(c) => CondModel::Binary(c.lh@, c.comparison, c.rh@),
            Condition::Existence(c) => CondModel::Existence(c.lh@),
            Condition::Conjunction(l, r) => CondModel::Conjunction(
                Box::new((**l).view()),
                Box::new((**r).view()),
            ),
            Condition::Disjunction(l, r) => CondModel::Disjunction(
                Box::new((**l).view()),
                Box::new((**r).view()),
            ),
        }
    }
}

/// What comparing `a` with `b` by `op` gives.
pub fn compare(op: ComparisonOperator, a: &Value, b: &Value) -> (r: core::result::Result<
    bool,
    Error,
>)
    ensures
        match (r, compare_spec(op, a@, b@)) {
            (Ok(x), Ok(y)) => x == y,
            (Err(e), Err(m)) => e@ == m,
            _ => false,
        },
{
    match op {
        ComparisonOperator::Equals => Ok(value_eq(a, b)),
        ComparisonOperator::NotEquals => Ok(!value_eq(a, b)),
        ComparisonOperator::LessThan => Ok(
            match value_order(a, b) {
                Some(Order::Less) => true,
                _ => false,
            },
        ),
        ComparisonOperator::GreaterThan => Ok(
            match value_order(a, b) {
                Some(Order::Greater) => true,
                _ => false,
            },
        ),
        ComparisonOperator::LessThanEquals => Ok(
            match value_order(a, b) {
                Some(Order::Less) => true,
                Some(Order::Equal) => true,
                _ => false,
            },
        ),
        ComparisonOperator::GreaterThanEquals => Ok(
            match value_order(a, b) {
                Some(Order::Greater) => true,
                Some(Order::Equal) => true,
                _ => false,
            },
        ),
        ComparisonOperator::Contains => contains_check(a, b),
    }
}

impl BinaryCondition {
    /// Whether the comparison holds in `runtime`.
    pub fn evaluate(&self, runtime: &Runtime) -> (r: core::result::Result<bool, Error>)
        ensures
            match (r, cond_eval(CondModel::Binary(self.lh@, self.comparison, self.rh@), runtime@)) {
                (Ok(x), Ok(y)) => x == y,
                (Err(e), Err(m)) => e@ == m,
                _ => false,
            },
    {
        let nil = Value::Nil;
        let a: &Value = match self.lh.try_evaluate(&runtime.stack) {
            Some(v) => v,
            None => {
                if runtime.strict && !self.lh.is_state() {
                    return Err(self.lh.unknown());
                }
                &nil
            },
        };
        let b: &Value = match self.rh.try_evaluate(&runtime.stack) {
            Some(v) => v,
            None => {
                if runtime.strict && !self.rh.is_state() {
                    return Err(self.rh.unknown());
                }
                &nil
            },
        };
        let equality = match self.comparison {
            ComparisonOperator::Equals => true,
            ComparisonOperator::NotEquals => true,
            _ => false,
        };
        if equality {
            let wanted = match self.comparison {
                ComparisonOperator::Equals => true,
                _ => false,
            };
            if let Expression::State(state) = &self.rh {
                return Ok(a.query_state(*state) == wanted);
            }
            if let Expression::State(state) = &self.lh {
                return Ok(b.query_state(*state) == wanted);
            }
        }
        compare(self.comparison, a, b)
    }

    /// Appends the comparison as it is written in a trace to `out`.
    pub fn render_to(&self, out: &mut String)
        ensures
            final(out)@ == old(out)@ + cond_text(
                CondModel::Binary(self.lh@, self.comparison, self.rh@),
            ),
    {
        let mut s = self.lh.render();
        s.push(' ');
        s.append(self.comparison.as_str());
        s.push(' ');
        self.rh.render_to(&mut s);
        out.append(s.as_str());
    }
}

impl ExistenceCondition {
    /// Whether the expression is truthy in `runtime`: a variable without a
    /// binding is not.
    pub fn evaluate(&self, runtime: &Runtime) -> (r: core::result::Result<bool, Error>)
        ensures
            match (r, cond_eval(CondModel::Existence(self.lh@), runtime@)) {
                (Ok(x), Ok(y)) => x == y,
                (Err(e), Err(m)) => e@ == m,
                _ => false,
            },
    {
        let nil = Value::Nil;
        let a: &Value = match self.lh.try_evaluate(&runtime.stack) {
            Some(v) => v,
            None => &nil,
        };
        Ok(a.query_state(State::Truthy))
    }
}

impl Condition {
    /// Whether the condition holds in `runtime`.
    pub fn evaluate(&self, runtime: &Runtime) -> (r: core::result::Result<bool, Error>)
        ensures
            match (r, cond_eval(self@, runtime@)) {
                (Ok(x), Ok(y)) => x == y,
                (Err(e), Err(m)) => e@ == m,
                _ => false,
            },
        decreases self,
    {
        match self {
            Condition::Binary(c) => c.evaluate(runtime),
            Condition::Existence(c) => c.evaluate(runtime),
            Condition::Conjunction(left, right) => {
                match left.evaluate(runtime) {
                    Err(e) => Err(e),
                    Ok(false) => Ok(false),
                    Ok(true) => right.evaluate(runtime),
                }
            },
            Condition::Disjunction(left, right) => {
                match left.evaluate(runtime) {
                    Err(e) => Err(e),
                    Ok(true) => Ok(true),
                    Ok(false) => right.evaluate(runtime),
                }
            },
        }
    }

    /// Appends the condition as it is written in a trace to `out`.
    pub fn render_to(&self, out: &mut String)
        ensures
            final(out)@ == old(out)@ + cond_text(self@),
        decreases self,
    {
        match self {
            Condition::Binary(c) => c.render_to(out),
            Condition::Existence(c) => c.lh.render_to(out),
            Condition::Conjunction(left, right) => {
                let mut s = String::new();
                left.render_to(&mut s);
                s.append(" and ");
                right.render_to(&mut s);
                assert(s@ =~= cond_text(self@));
                out.append(s.as_str());
            },
            Condition::Disjunction(left, right) => {
                let mut s = String::new();
                left.render_to(&mut s);
                s.append(" or ");
                right.render_to(&mut s);
                assert(s@ =~= cond_text(self@));
                out.append(s.as_str());
            },
        }
    }
}

/// The operator that the token writes, if it writes one.
pub open spec fn token_operator(t: TokenModel) -> Option<ComparisonOperator> {
    if t.kind == TokenKind::Symbol || t.kind == TokenKind::Identifier {
        operator_of(t.text)
    } else {
        None
    }
}

/// The condition without `and` or `or` that starts at token `pos`, with
/// the position after it: a value, or two values with an operator between
/// them.
pub open spec fn atom_at(tokens: Seq<TokenModel>, pos: int, offset: int) -> core::result::Result<
    (CondModel, int),
    ErrorModel,
> {
    match value_at(tokens, pos, offset) {
        Err(e) => Err(e),
        Ok((lh, p)) => if 0 <= p < tokens.len() && token_operator(tokens[p]) is Some {
            match value_at(tokens, p + 1, offset) {
                Err(e) => Err(e),
                Ok((rh, q)) => Ok((CondModel::Binary(lh, token_operator(tokens[p])->0, rh), q)),
            }
        } else {
            Ok((CondModel::Existence(lh), p))
        },
    }
}

/// The conditions joined by `and` that follow `lh` from token `pos` on,
/// joined to it from the left.
pub open spec fn conjunction_rest(
    tokens: Seq<TokenModel>,
    pos: int,
    lh: CondModel,
    offset: int,
) -> core::result::Result<(CondModel, int), ErrorModel>
    decreases tokens_left(tokens, pos),
{
    if 0 <= pos < tokens.len() && is_word(tokens[pos], "and"@) {
        match atom_at(tokens, pos + 1, offset) {
            Err(e) => Err(e),
            Ok((rh, q)) => if q > pos {
                conjunction_rest(
                    tokens,
                    q,
                    CondModel::Conjunction(Box::new(lh), Box::new(rh)),
                    offset,
                )
            } else {
                Err(expected("Value expected."@, offset))
            },
        }
    } else {
        Ok((lh, pos))
    }
}

/// The chain of conditions joined by `and` that starts at token `pos`.
pub open spec fn conjunction_at(
    tokens: Seq<TokenModel>,
    pos: int,
    offset: int,
) -> core::result::Result<(CondModel, int), ErrorModel> {
    match atom_at(tokens, pos, offset) {
        Err(e) => Err(e),
        Ok((lh, p)) => conjunction_rest(tokens, p, lh, offset),
    }
}

/// The chains joined by `or` that follow `lh` from token `pos` on, joined
/// to it from the left. Nothing but `or` may follow a chain.
pub open spec fn disjunction_rest(
    tokens: Seq<TokenModel>,
    pos: int,
    lh: CondModel,
    offset: int,
) -> core::result::Result<CondModel, ErrorModel>
    decreases tokens_left(tokens, pos),
{
    if pos < 0 || pos >= tokens.len() {
        Ok(lh)
    } else if is_word(tokens[pos], "or"@) {
        match conjunction_at(tokens, pos + 1, offset) {
            Err(e) => Err(e),
            Ok((rh, q)) => if q > pos {
                disjunction_rest(
                    tokens,
                    q,
                    CondModel::Disjunction(Box::new(lh), Box::new(rh)),
                    offset,
                )
            } else {
                Err(expected("Value expected."@, offset))
            },
        }
    } else {
        Err(expected("\"and\" or \"or\" expected."@, offset))
    }
}

/// The condition that the tokens from position `pos` on write: chains of
/// conditions joined by `and`, joined by `or`. So `and` binds tighter than
/// `or`, and both group from the left.
pub open spec fn condition_of(tokens: Seq<TokenModel>, pos: int, offset: int) -> core::result::Result<
    CondModel,
    ErrorModel,
> {
    match conjunction_at(tokens, pos, offset) {
        Err(e) => Err(e),
        Ok((lh, p)) => disjunction_rest(tokens, p, lh, offset),
    }
}

/// The operator that the token writes, if it writes one.
pub fn operator_token(t: &Token) -> (r: Option<ComparisonOperator>)
    ensures
        r == token_operator(t@),
{
    match t.kind {
        TokenKind::Symbol | TokenKind::Identifier => match ComparisonOperator::from_str(
            t.text.as_str(),
        ) {
            Ok(op) => Some(op),
            Err(_) => None,
        },
        _ => None,
    }
}

/// The condition without `and` or `or` that starts at token `pos`, with
/// the position after it.
pub fn parse_atom_condition(tokens: &Vec<Token>, pos: usize, offset: usize) -> (r:
    core::result::Result<(Condition, usize), Error>)
    ensures
        match (r, atom_at(tokens_view(tokens@), pos as int, offset as int)) {
            (Ok((c, end)), Ok((m, stop))) => c@ == m && end == stop && pos < end <= tokens@.len(),
            (Err(e), Err(m)) => e@ == m,
            _ => false,
        },
{
    let (lh, p) = match parse_value(tokens, pos, offset) {
        Ok(found) => found,
        Err(e) => {
            return Err(e);
        },
    };
    if p < tokens.len() {
        assert(tokens_view(tokens@)[p as int] == tokens@[p as int]@);
        if let Some(op) = operator_token(&tokens[p]) {
            let (rh, q) = match parse_value(tokens, p + 1, offset) {
                Ok(found) => found,
                Err(e) => {
                    return Err(e);
                },
            };
            return Ok((Condition::Binary(BinaryCondition { lh, comparison: op, rh }), q));
        }
    }
    Ok((Condition::Existence(ExistenceCondition { lh }), p))
}

/// The chain of conditions joined by `and` that starts at token `pos`,
/// with the position after it.
pub fn parse_conjunction_chain(tokens: &Vec<Token>, pos: usize, offset: usize) -> (r:
    core::result::Result<(Condition, usize), Error>)
    ensures
        match (r, conjunction_at(tokens_view(tokens@), pos as int, offset as int)) {
            (Ok((c, end)), Ok((m, stop))) => c@ == m && end == stop && pos < end <= tokens@.len(),
            (Err(e), Err(m)) => e@ == m,
            _ => false,
        },
{
    let ghost all = tokens_view(tokens@);
    let (first, p) = match parse_atom_condition(tokens, pos, offset) {
        Ok(found) => found,
        Err(e) => {
            return Err(e);
        },
    };
    let mut lh = first;
    let mut at: usize = p;
    loop
        invariant
            pos < at <= tokens@.len(),
            all == tokens_view(tokens@),
            conjunction_at(all, pos as int, offset as int) == conjunction_rest(
                all,
                at as int,
                lh@,
                offset as int,
            ),
        decreases tokens@.len() - at,
    {
        if at >= tokens.len() {
            return Ok((lh, at));
        }
        assert(all[at as int] == tokens@[at as int]@);
        if !word_is(&tokens[at], "and") {
            return Ok((lh, at));
        }
        let (rh, q) = match parse_atom_condition(tokens, at + 1, offset) {
            Ok(found) => found,
            Err(e) => {
                return Err(e);
            },
        };
        lh = Condition::Conjunction(Box::new(lh), Box::new(rh));
        at = q;
    }
}

/// The condition that the tokens from position `pos` on write.
pub fn parse_condition(tokens: &Vec<Token>, pos: usize, offset: usize) -> (r: core::result::Result<
    Condition,
    Error,
>)
    ensures
        match (r, condition_of(tokens_view(tokens@), pos as int, offset as int)) {
            (Ok(c), Ok(m)) => c@ == m,
            (Err(e), Err(m)) => e@ == m,
            _ => false,
        },
{
    let ghost all = tokens_view(tokens@);
    let (first, p) = match parse_conjunction_chain(tokens, pos, offset) {
        Ok(found) => found,
        Err(e) => {
            return Err(e);
        },
    };
    let mut lh = first;
    let mut at: usize = p;
    loop
        invariant
            pos < at <= tokens@.len(),
            all == tokens_view(tokens@),
            condition_of(all, pos as int, offset as int) == disjunction_rest(
                all,
                at as int,
                lh@,
                offset as int,
            ),
        decreases tokens@.len() - at,
    {
        if at >= tokens.len() {
            return Ok(lh);
        }
        assert(all[at as int] == tokens@[at as int]@);
        if !word_is(&tokens[at], "or") {
            return Err(expect_error("\"and\" or \"or\" expected.", offset));
        }
        let (rh, q) = match parse_conjunction_chain(tokens, at + 1, offset) {
            Ok(found) => found,
            Err(e) => {
                return Err(e);
            },
        };
        lh = Condition::Disjunction(Box::new(lh), Box::new(rh));
        at = q;
    }
}

} // verus!
