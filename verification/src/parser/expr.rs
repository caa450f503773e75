//! Reading expressions from tokens.

use vstd::prelude::*;
use crate::error::{error_at, Error, ErrorKind, ErrorModel};
use crate::model::scalar::ScalarModel;
use crate::model::val::{State, Val};
use crate::model::value::{Scalar, Value};
use crate::parser::number::{
    decimal_of, integer_of, lemma_integer_round_trip, lemma_nat_text_value, parse_decimal,
    parse_integer,
};
use crate::parser::scan::{is_ident_start, run_len, CharClass};
use crate::parser::token::{
    has_fraction, starts_number, token_at, tokens_of, tokens_scan, tokens_view, whole_end, Token,
    TokenKind, TokenModel,
};
use crate::runtime::expression::{exprs_view, ExprModel, Expression, Variable};
use crate::text::{int_text, is_digit, is_space, nat_text, str_eq};

verus! {

/// Whether `t` is the symbol written `text`.
pub open spec fn is_symbol(t: TokenModel, text: Seq<char>) -> bool {
    t.kind == TokenKind::Symbol && t.text == text
}

/// Whether `t` is the word `text`.
pub open spec fn is_word(t: TokenModel, text: Seq<char>) -> bool {
    t.kind == TokenKind::Identifier && t.text == text
}

/// The error for a token other than the one the grammar asks for.
pub open spec fn expected(what: Seq<char>, offset: int) -> ErrorModel {
    error_at(ErrorKind::UnexpectedToken, what, offset)
}

/// The error for a number that cannot be held.
pub open spec fn bad_number(offset: int) -> ErrorModel {
    error_at(ErrorKind::BadToken, "Number out of range."@, offset)
}

/// The number of tokens from position `pos` on.
pub open spec fn tokens_left(tokens: Seq<TokenModel>, pos: int) -> nat {
    if 0 <= pos <= tokens.len() {
        (tokens.len() - pos) as nat
    } else {
        0
    }
}

/// The value that starts at token `pos`, with the position after it: a
/// number, a string, `true`, `false`, `nil`, `empty`, `blank`, or a
/// variable with its accessors. `offset` is where an error is reported.
pub open spec fn value_at(tokens: Seq<TokenModel>, pos: int, offset: int) -> core::result::Result<
    (ExprModel, int),
    ErrorModel,
>
    decreases tokens_left(tokens, pos),
{
    if pos < 0 || pos >= tokens.len() {
        Err(expected("Value expected."@, offset))
    } else {
        let t = tokens[pos];
        match t.kind {
            TokenKind::Integer => match integer_of(t.text) {
                Some(i) => Ok((ExprModel::Literal(Val::Scalar(ScalarModel::Integer(i))), pos + 1)),
                None => Err(bad_number(offset)),
            },
            TokenKind::Float => match decimal_of(t.text) {
                Some(d) => Ok((ExprModel::Literal(Val::Scalar(ScalarModel::Float(d))), pos + 1)),
                None => Err(bad_number(offset)),
            },
            TokenKind::Str => Ok((ExprModel::Literal(Val::Scalar(ScalarModel::Str(t.text))), pos + 1)),
            TokenKind::Identifier => if t.text == "true"@ {
                Ok((ExprModel::Literal(Val::Scalar(ScalarModel::Bool(true))), pos + 1))
            } else if t.text == "false"@ {
                Ok((ExprModel::Literal(Val::Scalar(ScalarModel::Bool(false))), pos + 1))
            } else if t.text == "nil"@ {
                Ok((ExprModel::Literal(Val::Nil), pos + 1))
            } else if t.text == "empty"@ {
                Ok((ExprModel::State(State::Empty), pos + 1))
            } else if t.text == "blank"@ {
                Ok((ExprModel::State(State::Blank), pos + 1))
            } else {
                match indexes_at(tokens, pos + 1, Seq::empty(), offset) {
                    Ok((indexes, end)) => Ok((ExprModel::Variable(t.text, indexes), end)),
                    Err(e) => Err(e),
                }
            },
            TokenKind::Symbol => Err(expected("Value expected."@, offset)),
        }
    }
}

/// The accessors that start at token `pos`, after those in `done`, with
/// the position after them: each is a `.` with a name behind it, or a
/// value between `[` and `]`.
pub open spec fn indexes_at(
    tokens: Seq<TokenModel>,
    pos: int,
    done: Seq<ExprModel>,
    offset: int,
) -> core::result::Result<(Seq<ExprModel>, int), ErrorModel>
    decreases tokens_left(tokens, pos),
{
    if pos < 0 || pos >= tokens.len() {
        Ok((done, pos))
    } else if is_symbol(tokens[pos], "."@) {
        if pos + 1 < tokens.len() && tokens[pos + 1].kind == TokenKind::Identifier {
            indexes_at(
                tokens,
                pos + 2,
                done.push(ExprModel::Literal(Val::Scalar(ScalarModel::Str(tokens[pos + 1].text)))),
                offset,
            )
        } else {
            Err(expected("Identifier expected."@, offset))
        }
    } else if is_symbol(tokens[pos], "["@) {
        match value_at(tokens, pos + 1, offset) {
            Err(e) => Err(e),
            Ok((index, end)) => if pos < end && end < tokens.len() && is_symbol(tokens[end], "]"@) {
                indexes_at(tokens, end + 1, done.push(index), offset)
            } else {
                Err(expected("\"]\" expected."@, offset))
            },
        }
    } else {
        Ok((done, pos))
    }
}

/// Whether the token is the symbol written `text`.
pub fn symbol_is(t: &Token, text: &str) -> (b: bool)
    ensures
        b == is_symbol(t@, text@),
{
    match t.kind {
        TokenKind::Symbol => str_eq(t.text.as_str(), text),
        _ => false,
    }
}

/// Whether the token is the word `text`.
pub fn word_is(t: &Token, text: &str) -> (b: bool)
    ensures
        b == is_word(t@, text@),
{
    match t.kind {
        TokenKind::Identifier => str_eq(t.text.as_str(), text),
        _ => false,
    }
}

/// The error for a token other than the one the grammar asks for.
pub fn expect_error(what: &str, offset: usize) -> (e: Error)
    ensures
        e@ == expected(what@, offset as int),
{
    Error::new(ErrorKind::UnexpectedToken, what.to_owned(), offset)
}

/// The error for a number that cannot be held.
pub fn number_error(offset: usize) -> (e: Error)
    ensures
        e@ == bad_number(offset as int),
{
    Error::new(ErrorKind::BadToken, "Number out of range.".to_owned(), offset)
}

/// The value that starts at token `pos`, with the position after it.
pub fn parse_value(tokens: &Vec<Token>, pos: usize, offset: usize) -> (r: core::result::Result<
    (Expression, usize),
    Error,
>)
    ensures
        match (r, value_at(tokens_view(tokens@), pos as int, offset as int)) {
            (Ok((e, end)), Ok((m, stop))) => e@ == m && end == stop && pos < end <= tokens@.len(),
            (Err(e), Err(m)) => e@ == m,
            _ => false,
        },
    decreases tokens@.len() - pos,
{
    if pos >= tokens.len() {
        return Err(expect_error("Value expected.", offset));
    }
    let t = &tokens[pos];
    assert(tokens_view(tokens@)[pos as int] == t@);
    match t.kind {
        TokenKind::Integer => match parse_integer(t.text.as_str()) {
            Some(i) => Ok((Expression::Literal(Value::Scalar(Scalar::Integer(i))), pos + 1)),
            None => Err(number_error(offset)),
        },
        TokenKind::Float => match parse_decimal(t.text.as_str()) {
            Some(d) => Ok((Expression::Literal(Value::Scalar(Scalar::Float(d))), pos + 1)),
            None => Err(number_error(offset)),
        },
        TokenKind::Str => Ok(
            (Expression::Literal(Value::Scalar(Scalar::Str(t.text.clone()))), pos + 1),
        ),
        TokenKind::Identifier => {
            if str_eq(t.text.as_str(), "true") {
                Ok((Expression::Literal(Value::Scalar(Scalar::Bool(true))), pos + 1))
            } else if str_eq(t.text.as_str(), "false") {
                Ok((Expression::Literal(Value::Scalar(Scalar::Bool(false))), pos + 1))
            } else if str_eq(t.text.as_str(), "nil") {
                Ok((Expression::Literal(Value::Nil), pos + 1))
            } else if str_eq(t.text.as_str(), "empty") {
                Ok((Expression::State(State::Empty), pos + 1))
            } else if str_eq(t.text.as_str(), "blank") {
                Ok((Expression::State(State::Blank), pos + 1))
            } else {
                match parse_indexes(tokens, pos + 1, offset) {
                    Ok((indexes, end)) => Ok(
                        (Expression::Variable(Variable { name: t.text.clone(), indexes }), end),
                    ),
                    Err(e) => Err(e),
                }
            }
        },
        TokenKind::Symbol => Err(expect_error("Value expected.", offset)),
    }
}

/// The accessors that start at token `pos`, with the position after them.
pub(crate) fn parse_indexes(tokens: &Vec<Token>, pos: usize, offset: usize) -> (r: core::result::Result<
    (Vec<Expression>, usize),
    Error,
>)
    requires
        pos <= tokens@.len(),
    ensures
        match (r, indexes_at(tokens_view(tokens@), pos as int, Seq::empty(), offset as int)) {
            (Ok((v, end)), Ok((m, stop))) => exprs_view(v@) == m && end == stop && pos <= end
                <= tokens@.len(),
            (Err(e), Err(m)) => e@ == m,
            _ => false,
        },
    decreases tokens@.len() - pos,
{
    let ghost all = tokens_view(tokens@);
    let mut done: Vec<Expression> = Vec::new();
    let mut at: usize = pos;
    assert(exprs_view(done@) =~= Seq::empty());
    loop
        invariant
            pos <= at <= tokens@.len(),
            all == tokens_view(tokens@),
            indexes_at(all, pos as int, Seq::empty(), offset as int) == indexes_at(
                all,
                at as int,
                exprs_view(done@),
                offset as int,
            ),
        decreases tokens@.len() - at,
    {
        if at >= tokens.len() {
            return Ok((done, at));
        }
        assert(all[at as int] == tokens@[at as int]@);
        let ghost before = exprs_view(done@);
        if symbol_is(&tokens[at], ".") {
            if tokens.len() - at > 1 {
                assert(all[at + 1] == tokens@[at + 1]@);
                match tokens[at + 1].kind {
                    TokenKind::Identifier => {
                        let index = Expression::Literal(
                            Value::Scalar(Scalar::Str(tokens[at + 1].text.clone())),
                        );
                        done.push(index);
                        assert(exprs_view(done@) =~= before.push(index@));
                        at = at + 2;
                    },
                    _ => {
                        return Err(expect_error("Identifier expected.", offset));
                    },
                }
            } else {
                return Err(expect_error("Identifier expected.", offset));
            }
        } else if symbol_is(&tokens[at], "[") {
            match parse_value(tokens, at + 1, offset) {
                Err(e) => {
                    return Err(e);
                },
                Ok((index, end)) => {
                    if end < tokens.len() && symbol_is(&tokens[end], "]") {
                        assert(all[end as int] == tokens@[end as int]@);
                        done.push(index);
                        assert(exprs_view(done@) =~= before.push(index@));
                        at = end + 1;
                    } else {
                        proof {
                            if end < tokens@.len() {
                                assert(all[end as int] == tokens@[end as int]@);
                            }
                        }
                        return Err(expect_error("\"]\" expected.", offset));
                    }
                },
            }
        } else {
            return Ok((done, at));
        }
    }
}

/// A run of digits that reaches the end of `s` is as long as what is left
/// of `s`.
pub proof fn lemma_digit_run(s: Seq<char>, from: int)
    requires
        0 <= from <= s.len(),
        forall|i: int| from <= i < s.len() ==> is_digit(#[trigger] s[i]),
    ensures
        run_len(s, from, CharClass::Digit) == s.len() - from,
    decreases s.len() - from,
{
    if from < s.len() {
        lemma_digit_run(s, from + 1);
    }
}

/// The numeral of a whole number of 64 bits, read as a template literal,
/// is the literal of that number.
pub proof fn lemma_integer_literal_round_trip(n: int, offset: int)
    requires
        i64::MIN <= n <= i64::MAX,
    ensures
        tokens_of(int_text(n)) == Some(
            seq![TokenModel { kind: TokenKind::Integer, text: int_text(n) }],
        ),
        value_at(tokens_of(int_text(n))->0, 0, offset) == Ok::<(ExprModel, int), ErrorModel>(
            (ExprModel::Literal(Val::Scalar(ScalarModel::Integer(n))), 1),
        ),
{
    let text = int_text(n);
    let token = TokenModel { kind: TokenKind::Integer, text };
    lemma_integer_round_trip(n);
    let m: nat = if n < 0 {
        (-n) as nat
    } else {
        n as nat
    };
    lemma_nat_text_value(m);
    let digits = nat_text(m);
    let first: int = if n < 0 {
        1
    } else {
        0
    };
    assert forall|i: int| first <= i < text.len() implies is_digit(#[trigger] text[i]) by {
        assert(text[i] == digits[i - first]);
    }
    lemma_digit_run(text, first);
    assert(is_digit(text[first]));
    assert(!is_space(text[0]));
    assert(run_len(text, 0, CharClass::Space) == 0);
    assert(!is_ident_start(text[0]));
    assert(starts_number(text, 0));
    assert(whole_end(text, 0) == text.len());
    assert(!has_fraction(text, 0));
    assert(text.subrange(0, text.len() as int) =~= text);
    assert(token_at(text, 0) == Some((token, text.len())));
    let end = text.len() as int;
    assert(run_len(text, end, CharClass::Space) == 0);
    let done = Seq::<TokenModel>::empty().push(token);
    assert(tokens_scan(text, end, done) == Some(done));
    assert(done =~= seq![token]);
    assert(tokens_of(text) == Some(seq![token]));
}

} // verus!
