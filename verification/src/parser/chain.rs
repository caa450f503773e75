//! Reading an expression with its filters from tokens.

use vstd::prelude::*;
use crate::error::{error_at, Error, ErrorKind, ErrorModel};
use crate::filters::standard::{
    default_bound, size_bound, ArgsModel, Filter, FilterArguments, FilterModel,
};
use crate::parser::expr::{
    expect_error, expected, is_symbol, parse_value, symbol_is, tokens_left, value_at,
};
use crate::parser::language::{find, FilterParser, Language, LanguageModel};
use crate::parser::token::{tokens_view, Token, TokenKind, TokenModel};
use crate::runtime::expression::ExprModel;
use crate::runtime::renderable::{filters_view, FilterChain};

verus! {

/// The error for a filter that the language does not know.
pub open spec fn unknown_filter(name: Seq<char>, offset: int) -> ErrorModel {
    error_at(ErrorKind::UnknownFilter, "Unknown filter "@ + name, offset)
}

/// What a filter's parser makes of the arguments.
pub open spec fn bound(parser: FilterParser, args: ArgsModel, offset: int) -> core::result::Result<
    FilterModel,
    ErrorModel,
> {
    match parser {
        FilterParser::Size(_) => size_bound(args, offset),
        FilterParser::Default(_) => default_bound(args, offset),
    }
}

/// Whether a keyword argument starts at token `pos`: a name with a `:`
/// behind it.
pub open spec fn keyword_at(tokens: Seq<TokenModel>, pos: int) -> bool {
    0 <= pos && pos + 1 < tokens.len() && tokens[pos].kind == TokenKind::Identifier && is_symbol(
        tokens[pos + 1],
        ":"@,
    )
}

/// The arguments that start at token `pos`, after those in `done`, with
/// the position after them: values, or names with a `:` and a value, with
/// `,` between them.
pub open spec fn args_at(
    tokens: Seq<TokenModel>,
    pos: int,
    done: ArgsModel,
    offset: int,
) -> core::result::Result<(ArgsModel, int), ErrorModel>
    decreases tokens_left(tokens, pos),
{
    let keyword = keyword_at(tokens, pos);
    let start = if keyword {
        pos + 2
    } else {
        pos
    };
    match value_at(tokens, start, offset) {
        Err(e) => Err(e),
        Ok((v, p)) => {
            let next = if keyword {
                ArgsModel { keyword: done.keyword.push((tokens[pos].text, v)), ..done }
            } else {
                ArgsModel { positional: done.positional.push(v), ..done }
            };
            if pos < p && p < tokens.len() && is_symbol(tokens[p], ","@) {
                args_at(tokens, p + 1, next, offset)
            } else {
                Ok((next, p))
            }
        },
    }
}

/// No arguments.
pub open spec fn no_args() -> ArgsModel {
    ArgsModel { positional: Seq::empty(), keyword: Seq::empty() }
}

/// The filters that start at token `pos`, after those in `done`, with the
/// position after them: each is a `|`, a name that the language knows,
/// and, behind a `:`, the filter's arguments.
pub open spec fn filters_at(
    tokens: Seq<TokenModel>,
    pos: int,
    language: LanguageModel,
    done: Seq<FilterModel>,
    offset: int,
) -> core::result::Result<(Seq<FilterModel>, int), ErrorModel>
    decreases tokens_left(tokens, pos),
{
    if 0 <= pos < tokens.len() && is_symbol(tokens[pos], "|"@) {
        if pos + 1 < tokens.len() && tokens[pos + 1].kind == TokenKind::Identifier {
            match find(language.filters, tokens[pos + 1].text) {
                None => Err(unknown_filter(tokens[pos + 1].text, offset)),
                Some(parser) => {
                    let args = if pos + 2 < tokens.len() && is_symbol(tokens[pos + 2], ":"@) {
                        args_at(tokens, pos + 3, no_args(), offset)
                    } else {
                        Ok((no_args(), pos + 2))
                    };
                    match args {
                        Err(e) => Err(e),
                        Ok((given, p)) => match bound(parser, given, offset) {
                            Err(e) => Err(e),
                            Ok(f) => if p > pos {
                                filters_at(tokens, p, language, done.push(f), offset)
                            } else {
                                Err(expected("Filter name expected."@, offset))
                            },
                        },
                    }
                },
            }
        } else {
            Err(expected("Filter name expected."@, offset))
        }
    } else {
        Ok((done, pos))
    }
}

/// The expression with its filters that starts at token `pos`, with the
/// position after it.
pub open spec fn chain_at(
    tokens: Seq<TokenModel>,
    pos: int,
    language: LanguageModel,
    offset: int,
) -> core::result::Result<((ExprModel, Seq<FilterModel>), int), ErrorModel> {
    match value_at(tokens, pos, offset) {
        Err(e) => Err(e),
        Ok((entry, p)) => match filters_at(tokens, p, language, Seq::empty(), offset) {
            Err(e) => Err(e),
            Ok((filters, q)) => Ok(((entry, filters), q)),
        },
    }
}

/// The expression with its filters that the tokens from `pos` on write:
/// nothing may follow it.
pub open spec fn whole_chain(
    tokens: Seq<TokenModel>,
    pos: int,
    language: LanguageModel,
    offset: int,
) -> core::result::Result<(ExprModel, Seq<FilterModel>), ErrorModel> {
    match chain_at(tokens, pos, language, offset) {
        Err(e) => Err(e),
        Ok((chain, p)) => if p == tokens.len() {
            Ok(chain)
        } else {
            Err(expected("\"|\" expected."@, offset))
        },
    }
}

/// The error for a filter that the language does not know.
pub fn filter_error(name: &str, offset: usize) -> (e: Error)
    ensures
        e@ == unknown_filter(name@, offset as int),
{
    let mut message = "Unknown filter ".to_owned();
    message.append(name);
    Error::new(ErrorKind::UnknownFilter, message, offset)
}

/// What a filter's parser makes of the arguments.
pub fn bind(parser: FilterParser, args: FilterArguments, offset: usize) -> (r: core::result::Result<
    Filter,
    Error,
>)
    ensures
        match (r, bound(parser, args@, offset as int)) {
            (Ok(f), Ok(m)) => f@ == m,
            (Err(e), Err(m)) => e@ == m,
            _ => false,
        },
{
    match parser {
        FilterParser::Size(p) => p.parse(args, offset),
        FilterParser::Default(p) => p.parse(args, offset),
    }
}

/// The arguments that start at token `pos`, with the position after them.
pub(crate) fn parse_args(tokens: &Vec<Token>, pos: usize, offset: usize) -> (r: core::result::Result<
    (FilterArguments, usize),
    Error,
>)
    requires
        pos <= tokens@.len(),
    ensures
        match (r, args_at(tokens_view(tokens@), pos as int, no_args(), offset as int)) {
            (Ok((a, end)), Ok((m, stop))) => a@ == m && end == stop && pos < end <= tokens@.len(),
            (Err(e), Err(m)) => e@ == m,
            _ => false,
        },
{
    let ghost all = tokens_view(tokens@);
    let mut args = FilterArguments { positional: Vec::new(), keyword: Vec::new() };
    assert(args@.positional =~= Seq::empty());
    assert(args@.keyword =~= Seq::empty());
    let mut at: usize = pos;
    loop
        invariant
            pos <= at <= tokens@.len(),
            all == tokens_view(tokens@),
            args_at(all, pos as int, no_args(), offset as int) == args_at(
                all,
                at as int,
                args@,
                offset as int,
            ),
        decreases tokens@.len() - at,
    {
        let ghost before = args@;
        let keyword = tokens.len() - at > 1 && match tokens[at].kind {
            TokenKind::Identifier => symbol_is(&tokens[at + 1], ":"),
            _ => false,
        };
        proof {
            if at + 1 < tokens@.len() {
                assert(all[at as int] == tokens@[at as int]@);
                assert(all[at + 1] == tokens@[at + 1]@);
            }
            assert(keyword == keyword_at(all, at as int));
        }
        let start: usize = if keyword {
            at + 2
        } else {
            at
        };
        let (v, p) = match parse_value(tokens, start, offset) {
            Ok(found) => found,
            Err(e) => {
                return Err(e);
            },
        };
        if keyword {
            args.keyword.push((tokens[at].text.clone(), v));
            assert(args@.keyword =~= before.keyword.push((all[at as int].text, v@)));
            assert(args@.positional =~= before.positional);
        } else {
            args.positional.push(v);
            assert(args@.positional =~= before.positional.push(v@));
            assert(args@.keyword =~= before.keyword);
        }
        if p < tokens.len() && symbol_is(&tokens[p], ",") {
            assert(all[p as int] == tokens@[p as int]@);
            at = p + 1;
        } else {
            proof {
                if p < tokens@.len() {
                    assert(all[p as int] == tokens@[p as int]@);
                }
            }
            return Ok((args, p));
        }
    }
}

/// The filters that start at token `pos`, with the position after them.
pub(crate) fn parse_filters(tokens: &Vec<Token>, pos: usize, language: &Language, offset: usize) -> (r:
    core::result::Result<(Vec<Filter>, usize), Error>)
    requires
        pos <= tokens@.len(),
    ensures
        match (
            r,
            filters_at(tokens_view(tokens@), pos as int, language@, Seq::empty(), offset as int),
        ) {
            (Ok((f, end)), Ok((m, stop))) => filters_view(f@) == m && end == stop && pos <= end
                <= tokens@.len(),
            (Err(e), Err(m)) => e@ == m,
            _ => false,
        },
{
    let ghost all = tokens_view(tokens@);
    let mut done: Vec<Filter> = Vec::new();
    assert(filters_view(done@) =~= Seq::empty());
    let mut at: usize = pos;
    loop
        invariant
            pos <= at <= tokens@.len(),
            all == tokens_view(tokens@),
            filters_at(all, pos as int, language@, Seq::empty(), offset as int) == filters_at(
                all,
                at as int,
                language@,
                filters_view(done@),
                offset as int,
            ),
        decreases tokens@.len() - at,
    {
        if at >= tokens.len() {
            return Ok((done, at));
        }
        assert(all[at as int] == tokens@[at as int]@);
        if !symbol_is(&tokens[at], "|") {
            return Ok((done, at));
        }
        if tokens.len() - at < 2 {
            return Err(expect_error("Filter name expected.", offset));
        }
        assert(all[at + 1] == tokens@[at + 1]@);
        match tokens[at + 1].kind {
            TokenKind::Identifier => {},
            _ => {
                return Err(expect_error("Filter name expected.", offset));
            },
        }
        let parser = match language.filters.get(tokens[at + 1].text.as_str()) {
            Some(parser) => parser,
            None => {
                return Err(filter_error(tokens[at + 1].text.as_str(), offset));
            },
        };
        let (args, p) = if tokens.len() - at > 2 && symbol_is(&tokens[at + 2], ":") {
            assert(all[at + 2] == tokens@[at + 2]@);
            match parse_args(tokens, at + 3, offset) {
                Ok(found) => found,
                Err(e) => {
                    return Err(e);
                },
            }
        } else {
            proof {
                if at + 2 < tokens@.len() {
                    assert(all[at + 2] == tokens@[at + 2]@);
                }
            }
            let none = FilterArguments { positional: Vec::new(), keyword: Vec::new() };
            assert(none@.positional =~= Seq::empty());
            assert(none@.keyword =~= Seq::empty());
            (none, at + 2)
        };
        let ghost before = filters_view(done@);
        let filter = match bind(parser, args, offset) {
            Ok(f) => f,
            Err(e) => {
                return Err(e);
            },
        };
        done.push(filter);
        assert(filters_view(done@) =~= before.push(filter@));
        at = p;
    }
}

/// The expression with its filters that the tokens from `pos` on write.
pub fn parse_chain(tokens: &Vec<Token>, pos: usize, language: &Language, offset: usize) -> (r:
    core::result::Result<FilterChain, Error>)
    ensures
        match (r, whole_chain(tokens_view(tokens@), pos as int, language@, offset as int)) {
            (Ok(c), Ok(m)) => c.entry@ == m.0 && filters_view(c.filters@) == m.1,
            (Err(e), Err(m)) => e@ == m,
            _ => false,
        },
{
    let (entry, p) = match parse_value(tokens, pos, offset) {
        Ok(found) => found,
        Err(e) => {
            return Err(e);
        },
    };
    let (filters, q) = match parse_filters(tokens, p, language, offset) {
        Ok(found) => found,
        Err(e) => {
            return Err(e);
        },
    };
    if q == tokens.len() {
        Ok(FilterChain::new(entry, filters))
    } else {
        Err(expect_error("\"|\" expected.", offset))
    }
}

} // verus!
