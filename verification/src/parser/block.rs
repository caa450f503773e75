//! From the elements of a template to the tree of nodes: tags and blocks
//! are handed to their parsers, and blocks are matched with their end tags.

use vstd::prelude::*;
use crate::error::{error_at, Error, ErrorKind, ErrorModel};

use crate::parser::chain::{parse_chain, whole_chain};
use crate::parser::element::{elements_view, Element, ElementModel};
use crate::parser::expr::{
    expect_error, expected, is_symbol, parse_value, symbol_is, tokens_left, value_at,
};
use crate::parser::language::{find, BlockParser, Language, LanguageModel, TagParser};
use crate::parser::token::{tokens_view, Token, TokenKind, TokenModel};
use crate::runtime::expression::{exprs_view, ExprModel, Expression};
use crate::runtime::renderable::{
    all_blank, nodes_view, options_view, without_text, Assign, Case, CaseOption, Conditional, Node,
    NodeModel, Template, Text,
};
use crate::tags::condition::{condition_of, parse_condition};
use crate::text::str_eq;

verus! {

/// The names of the tags at which a body ends. A name that is not needed
/// is left empty: no tag has an empty name.
pub struct StopsModel {
    pub first: Seq<char>,
    pub second: Seq<char>,
    pub third: Seq<char>,
}

/// Whether a body ends at a tag named `name`.
pub open spec fn is_stop(stops: StopsModel, name: Seq<char>) -> bool {
    name == stops.first || name == stops.second || name == stops.third
}

/// No tag ends the body: the body of the whole template.
pub open spec fn no_stops() -> StopsModel {
    StopsModel { first: Seq::empty(), second: Seq::empty(), third: Seq::empty() }
}

/// The tags at which the first body of an `if` ends.
pub open spec fn if_stops() -> StopsModel {
    StopsModel { first: "endif"@, second: "else"@, third: "elsif"@ }
}

/// The tags at which the first body of an `unless` ends.
pub open spec fn unless_stops() -> StopsModel {
    StopsModel { first: "endunless"@, second: "else"@, third: Seq::empty() }
}

/// The tags at which the body behind `else` ends in a block that ends
/// with `end`.
pub open spec fn else_stops(end: Seq<char>) -> StopsModel {
    StopsModel { first: end, second: "else"@, third: Seq::empty() }
}

/// The tags at which the body of a `when` ends.
pub open spec fn case_stops() -> StopsModel {
    StopsModel { first: "endcase"@, second: "else"@, third: "when"@ }
}

/// The number of elements from position `pos` on.
pub open spec fn elements_left(elements: Seq<ElementModel>, pos: int) -> nat {
    if 0 <= pos <= elements.len() {
        (elements.len() - pos) as nat
    } else {
        0
    }
}

/// The error for a tag that the language does not know. This is also the
/// error for an end tag without its block, and for a tag that belongs
/// inside a block outside of it.
pub open spec fn unknown_tag(name: Seq<char>, offset: int) -> ErrorModel {
    error_at(ErrorKind::UnknownTag, "Unknown tag "@ + name, offset)
}

/// The error for a block without its end tag.
pub open spec fn unclosed(offset: int) -> ErrorModel {
    error_at(ErrorKind::UnclosedBlock, "Unclosed block."@, offset)
}

/// The error for a second `else` in one block.
pub open spec fn duplicate_else(offset: int) -> ErrorModel {
    error_at(ErrorKind::DuplicateElse, "Duplicate else."@, offset)
}

/// What `assign` makes of its tokens: a name, `=`, and an expression with
/// its filters.
pub open spec fn assign_of(
    args: Seq<TokenModel>,
    language: LanguageModel,
    offset: int,
) -> core::result::Result<NodeModel, ErrorModel> {
    if args.len() >= 2 && args[0].kind == TokenKind::Identifier && is_symbol(args[1], "="@) {
        match whole_chain(args, 2, language, offset) {
            Err(e) => Err(e),
            Ok((entry, filters)) => Ok(NodeModel::Assign(args[0].text, entry, filters)),
        }
    } else {
        Err(expected("Assignment expected."@, offset))
    }
}

/// Whether the token is `or`, in whatever case.
pub open spec fn is_or(t: TokenModel) -> bool {
    t.kind == TokenKind::Identifier && (t.text == "or"@ || t.text == "OR"@ || t.text == "Or"@
        || t.text == "oR"@)
}

/// The values of a `when` from token `pos` on, after those in `done`:
/// each stands behind an `or` or a `,`.
pub open spec fn when_rest(
    args: Seq<TokenModel>,
    pos: int,
    done: Seq<ExprModel>,
    offset: int,
) -> core::result::Result<Seq<ExprModel>, ErrorModel>
    decreases tokens_left(args, pos),
{
    if pos < 0 || pos >= args.len() {
        Ok(done)
    } else if is_or(args[pos]) || is_symbol(args[pos], ","@) {
        match value_at(args, pos + 1, offset) {
            Err(e) => Err(e),
            Ok((v, p)) => if p > pos {
                when_rest(args, p, done.push(v), offset)
            } else {
                Err(expected("Value expected."@, offset))
            },
        }
    } else {
        Err(expected("\"or\" or \",\" expected."@, offset))
    }
}

/// The values of a `when`: one or more, separated by `or` or `,`.
pub open spec fn when_values(args: Seq<TokenModel>, offset: int) -> core::result::Result<
    Seq<ExprModel>,
    ErrorModel,
> {
    match value_at(args, 0, offset) {
        Err(e) => Err(e),
        Ok((v, p)) => when_rest(args, p, seq![v], offset),
    }
}

/// Whether the bodies of all branches are blank.
pub open spec fn branches_blank(cases: Seq<(Seq<ExprModel>, Seq<NodeModel>)>) -> bool {
    forall|i: int| 0 <= i < cases.len() ==> all_blank((#[trigger] cases[i]).1)
}

/// The branches with the literal text taken out of their bodies.
pub open spec fn branches_without_text(cases: Seq<(Seq<ExprModel>, Seq<NodeModel>)>) -> Seq<
    (Seq<ExprModel>, Seq<NodeModel>),
> {
    Seq::new(cases.len(), |i: int| (cases[i].0, without_text(cases[i].1)))
}

/// The `case` of the given parts. Where the bodies of all branches, that
/// of `else` included, are blank, the `case` is blank and the literal text
/// is taken out of all of them.
pub open spec fn case_node(
    target: ExprModel,
    cases: Seq<(Seq<ExprModel>, Seq<NodeModel>)>,
    else_block: Option<Seq<NodeModel>>,
) -> NodeModel {
    let blank = branches_blank(cases) && match else_block {
        Some(body) => all_blank(body),
        None => true,
    };
    if blank {
        NodeModel::Case {
            target,
            blank,
            cases: branches_without_text(cases),
            else_block: match else_block {
                Some(body) => Some(without_text(body)),
                None => None,
            },
        }
    } else {
        NodeModel::Case { target, blank, cases, else_block }
    }
}

/// The nodes from element `pos` on, after those in `done`, up to the end
/// or to a tag at which the body ends, with the position of that tag.
pub open spec fn body_at(
    elements: Seq<ElementModel>,
    pos: int,
    stops: StopsModel,
    language: LanguageModel,
    done: Seq<NodeModel>,
) -> core::result::Result<(Seq<NodeModel>, int), ErrorModel>
    decreases elements_left(elements, pos), 3nat,
{
    if pos < 0 || pos >= elements.len() {
        Ok((done, pos))
    } else {
        match elements[pos] {
            ElementModel::Text(text, _) => body_at(
                elements,
                pos + 1,
                stops,
                language,
                done.push(NodeModel::Text(text)),
            ),
            ElementModel::Output(tokens, offset) => match whole_chain(tokens, 0, language, offset) {
                Err(e) => Err(e),
                Ok((entry, filters)) => body_at(
                    elements,
                    pos + 1,
                    stops,
                    language,
                    done.push(NodeModel::Output(entry, filters)),
                ),
            },
            ElementModel::Tag(name, args, offset) => if is_stop(stops, name) {
                Ok((done, pos))
            } else {
                match find(language.blocks, name) {
                    Some(parser) => match block_at(parser, elements, pos, language) {
                        Err(e) => Err(e),
                        Ok((node, p)) => if p > pos {
                            body_at(elements, p, stops, language, done.push(node))
                        } else {
                            Err(unclosed(offset))
                        },
                    },
                    None => match find(language.tags, name) {
                        Some(TagParser::Assign(_)) => match assign_of(args, language, offset) {
                            Err(e) => Err(e),
                            Ok(node) => body_at(elements, pos + 1, stops, language, done.push(node)),
                        },
                        None => Err(unknown_tag(name, offset)),
                    },
                }
            },
        }
    }
}

/// The block that the tag at element `pos` opens, as `parser` reads it,
/// with the position after its end tag.
pub open spec fn block_at(
    parser: BlockParser,
    elements: Seq<ElementModel>,
    pos: int,
    language: LanguageModel,
) -> core::result::Result<(NodeModel, int), ErrorModel>
    decreases elements_left(elements, pos), 2nat,
{
    match parser {
        BlockParser::If(_) => if_at(elements, pos, language, "if"@),
        BlockParser::Unless(_) => unless_at(elements, pos, language),
        BlockParser::Case(_) => case_at(elements, pos, language),
    }
}

/// The `if` whose condition the tag at element `pos` holds, with the
/// position after its `endif`. The first body ends at `endif`, `else` or
/// `elsif`. Behind `else` stands the second body, up to `endif`. An
/// `elsif` opens an `if` of its own, which is the second body and shares
/// the `endif`.
pub open spec fn if_at(
    elements: Seq<ElementModel>,
    pos: int,
    language: LanguageModel,
    tag_name: Seq<char>,
) -> core::result::Result<(NodeModel, int), ErrorModel>
    decreases elements_left(elements, pos), 1nat,
{
    if pos < 0 || pos >= elements.len() {
        Err(unclosed(0))
    } else {
        match elements[pos] {
            ElementModel::Tag(_, args, offset) => match condition_of(args, 0, offset) {
                Err(e) => Err(e),
                Ok(condition) => match body_at(
                    elements,
                    pos + 1,
                    if_stops(),
                    language,
                    Seq::empty(),
                ) {
                    Err(e) => Err(e),
                    Ok((if_true, p)) => if p <= pos || p >= elements.len() {
                        Err(unclosed(offset))
                    } else {
                        match elements[p] {
                            ElementModel::Tag(name, _, _) => if name == "endif"@ {
                                Ok(
                                    (
                                        NodeModel::Conditional {
                                            tag_name,
                                            condition,
                                            mode: true,
                                            if_true,
                                            if_false: None,
                                        },
                                        p + 1,
                                    ),
                                )
                            } else if name == "else"@ {
                                match second_body(elements, p, language, "endif"@, offset) {
                                    Err(e) => Err(e),
                                    Ok((if_false, end)) => Ok(
                                        (
                                            NodeModel::Conditional {
                                                tag_name,
                                                condition,
                                                mode: true,
                                                if_true,
                                                if_false: Some(if_false),
                                            },
                                            end,
                                        ),
                                    ),
                                }
                            } else {
                                match if_at(elements, p, language, "elsif"@) {
                                    Err(e) => Err(e),
                                    Ok((nested, end)) => Ok(
                                        (
                                            NodeModel::Conditional {
                                                tag_name,
                                                condition,
                                                mode: true,
                                                if_true,
                                                if_false: Some(seq![nested]),
                                            },
                                            end,
                                        ),
                                    ),
                                }
                            },
                            _ => Err(unclosed(offset)),
                        }
                    },
                },
            },
            _ => Err(unclosed(0)),
        }
    }
}

/// The body behind the `else` at element `pos`, up to the end tag named
/// `end`, with the position after that tag. A second `else` is an error.
/// `offset` is where the block starts.
pub open spec fn second_body(
    elements: Seq<ElementModel>,
    pos: int,
    language: LanguageModel,
    end: Seq<char>,
    offset: int,
) -> core::result::Result<(Seq<NodeModel>, int), ErrorModel>
    decreases elements_left(elements, pos), 0nat,
{
    if pos < 0 || pos >= elements.len() {
        Err(unclosed(offset))
    } else {
        match body_at(elements, pos + 1, else_stops(end), language, Seq::empty()) {
            Err(e) => Err(e),
            Ok((body, p)) => if p < 0 || p >= elements.len() {
                Err(unclosed(offset))
            } else {
                match elements[p] {
                    ElementModel::Tag(name, _, at) => if name == end {
                        Ok((body, p + 1))
                    } else {
                        Err(duplicate_else(at))
                    },
                    _ => Err(unclosed(offset)),
                }
            },
        }
    }
}

/// The `unless` whose condition the tag at element `pos` holds, with the
/// position after its `endunless`.
pub open spec fn unless_at(
    elements: Seq<ElementModel>,
    pos: int,
    language: LanguageModel,
) -> core::result::Result<(NodeModel, int), ErrorModel>
    decreases elements_left(elements, pos), 1nat,
{
    if pos < 0 || pos >= elements.len() {
        Err(unclosed(0))
    } else {
        match elements[pos] {
            ElementModel::Tag(_, args, offset) => match condition_of(args, 0, offset) {
                Err(e) => Err(e),
                Ok(condition) => match body_at(
                    elements,
                    pos + 1,
                    unless_stops(),
                    language,
                    Seq::empty(),
                ) {
                    Err(e) => Err(e),
                    Ok((if_true, p)) => if p <= pos || p >= elements.len() {
                        Err(unclosed(offset))
                    } else {
                        match elements[p] {
                            ElementModel::Tag(name, _, _) => if name == "endunless"@ {
                                Ok(
                                    (
                                        NodeModel::Conditional {
                                            tag_name: "unless"@,
                                            condition,
                                            mode: false,
                                            if_true,
                                            if_false: None,
                                        },
                                        p + 1,
                                    ),
                                )
                            } else {
                                match second_body(elements, p, language, "endunless"@, offset) {
                                    Err(e) => Err(e),
                                    Ok((if_false, end)) => Ok(
                                        (
                                            NodeModel::Conditional {
                                                tag_name: "unless"@,
                                                condition,
                                                mode: false,
                                                if_true,
                                                if_false: Some(if_false),
                                            },
                                            end,
                                        ),
                                    ),
                                }
                            },
                            _ => Err(unclosed(offset)),
                        }
                    },
                },
            },
            _ => Err(unclosed(0)),
        }
    }
}

/// The branches of a `case` from the tag at element `pos` on, after those
/// in `done`, with the body of `else` and the position after `endcase`.
/// A `when` holds the values of a branch, whose body follows it; behind
/// `else`, which takes no tokens, stands the last body. `offset` is where
/// the `case` starts.
pub open spec fn branches_at(
    elements: Seq<ElementModel>,
    pos: int,
    language: LanguageModel,
    done: Seq<(Seq<ExprModel>, Seq<NodeModel>)>,
    offset: int,
) -> core::result::Result<
    (Seq<(Seq<ExprModel>, Seq<NodeModel>)>, Option<Seq<NodeModel>>, int),
    ErrorModel,
>
    decreases elements_left(elements, pos), 1nat,
{
    if pos < 0 || pos >= elements.len() {
        Err(unclosed(offset))
    } else {
        match elements[pos] {
            ElementModel::Tag(name, args, at) => if name == "when"@ {
                match when_values(args, at) {
                    Err(e) => Err(e),
                    Ok(values) => match body_at(
                        elements,
                        pos + 1,
                        case_stops(),
                        language,
                        Seq::empty(),
                    ) {
                        Err(e) => Err(e),
                        Ok((body, p)) => if p > pos {
                            branches_at(elements, p, language, done.push((values, body)), offset)
                        } else {
                            Err(unclosed(offset))
                        },
                    },
                }
            } else if name == "else"@ {
                if args.len() != 0 {
                    Err(expected("Unexpected token."@, at))
                } else {
                    match second_body(elements, pos, language, "endcase"@, offset) {
                        Err(e) => Err(e),
                        Ok((body, end)) => Ok((done, Some(body), end)),
                    }
                }
            } else {
                Ok((done, None, pos + 1))
            },
            _ => Err(unclosed(offset)),
        }
    }
}

/// The `case` whose target the tag at element `pos` holds, with the
/// position after its `endcase`. What stands before the first `when` is
/// left out.
pub open spec fn case_at(
    elements: Seq<ElementModel>,
    pos: int,
    language: LanguageModel,
) -> core::result::Result<(NodeModel, int), ErrorModel>
    decreases elements_left(elements, pos), 1nat,
{
    if pos < 0 || pos >= elements.len() {
        Err(unclosed(0))
    } else {
        match elements[pos] {
            ElementModel::Tag(_, args, offset) => match value_at(args, 0, offset) {
                Err(e) => Err(e),
                Ok((target, used)) => if used != args.len() {
                    Err(expected("Unexpected token."@, offset))
                } else {
                    match body_at(elements, pos + 1, case_stops(), language, Seq::empty()) {
                        Err(e) => Err(e),
                        Ok((_, p)) => if p <= pos {
                            Err(unclosed(offset))
                        } else {
                            match branches_at(elements, p, language, Seq::empty(), offset) {
                                Err(e) => Err(e),
                                Ok((cases, else_block, end)) => Ok(
                                    (case_node(target, cases, else_block), end),
                                ),
                            }
                        },
                    }
                },
            },
            _ => Err(unclosed(0)),
        }
    }
}

/// The nodes that the elements write.
pub open spec fn nodes_of(elements: Seq<ElementModel>, language: LanguageModel) -> core::result::Result<
    Seq<NodeModel>,
    ErrorModel,
> {
    match body_at(elements, 0, no_stops(), language, Seq::empty()) {
        Err(e) => Err(e),
        Ok((nodes, _)) => Ok(nodes),
    }
}

/// The names of the tags at which a body ends.
#[derive(Clone, Copy, Debug)]
pub struct Stops {
    pub first: &'static str,
    pub second: &'static str,
    pub third: &'static str,
}

impl View for Stops {
    type V = StopsModel;

    open spec fn view(&self) -> StopsModel {
        StopsModel { first: self.first@, second: self.second@, third: self.third@ }
    }
}

impl Stops {
    /// Whether a body ends at a tag named `name`.
    pub fn matches(&self, name: &str) -> (b: bool)
        ensures
            b == is_stop(self@, name@),
    {
        str_eq(name, self.first) || str_eq(name, self.second) || str_eq(name, self.third)
    }
}

/// The error for a tag that the language does not know.
pub fn tag_error(name: &str, offset: usize) -> (e: Error)
    ensures
        e@ == unknown_tag(name@, offset as int),
{
    let mut message = "Unknown tag ".to_owned();
    message.append(name);
    Error::new(ErrorKind::UnknownTag, message, offset)
}

/// The error for a block without its end tag.
pub fn unclosed_error(offset: usize) -> (e: Error)
    ensures
        e@ == unclosed(offset as int),
{
    Error::new(ErrorKind::UnclosedBlock, "Unclosed block.".to_owned(), offset)
}

/// The error for a second `else` in one block.
pub fn else_error(offset: usize) -> (e: Error)
    ensures
        e@ == duplicate_else(offset as int),
{
    Error::new(ErrorKind::DuplicateElse, "Duplicate else.".to_owned(), offset)
}

/// What `assign` makes of its tokens.
pub fn parse_assign(args: &Vec<Token>, language: &Language, offset: usize) -> (r:
    core::result::Result<Node, Error>)
    ensures
        match (r, assign_of(tokens_view(args@), language@, offset as int)) {
            (Ok(n), Ok(m)) => n@ == m,
            (Err(e), Err(m)) => e@ == m,
            _ => false,
        },
{
    if args.len() >= 2 {
        assert(tokens_view(args@)[0] == args@[0]@);
        assert(tokens_view(args@)[1] == args@[1]@);
        let named = match args[0].kind {
            TokenKind::Identifier => true,
            _ => false,
        };
        if named && symbol_is(&args[1], "=") {
            return match parse_chain(args, 2, language, offset) {
                Err(e) => Err(e),
                Ok(source) => Ok(Node::Assign(Assign { name: args[0].text.clone(), source })),
            };
        }
    }
    Err(expect_error("Assignment expected.", offset))
}

/// Whether the token is `or`, in whatever case.
pub fn or_token(t: &Token) -> (b: bool)
    ensures
        b == is_or(t@),
{
    match t.kind {
        TokenKind::Identifier => str_eq(t.text.as_str(), "or") || str_eq(t.text.as_str(), "OR")
            || str_eq(t.text.as_str(), "Or") || str_eq(t.text.as_str(), "oR"),
        _ => false,
    }
}

/// The values of a `when`.
pub fn parse_when(args: &Vec<Token>, offset: usize) -> (r: core::result::Result<
    Vec<Expression>,
    Error,
>)
    ensures
        match (r, when_values(tokens_view(args@), offset as int)) {
            (Ok(v), Ok(m)) => exprs_view(v@) == m,
            (Err(e), Err(m)) => e@ == m,
            _ => false,
        },
{
    let ghost all = tokens_view(args@);
    let mut values: Vec<Expression> = Vec::new();
    let (first, p) = match parse_value(args, 0, offset) {
        Ok(found) => found,
        Err(e) => {
            return Err(e);
        },
    };
    values.push(first);
    assert(exprs_view(values@) =~= seq![first@]);
    let mut at: usize = p;
    loop
        invariant
            at <= args@.len(),
            all == tokens_view(args@),
            when_values(all, offset as int) == when_rest(
                all,
                at as int,
                exprs_view(values@),
                offset as int,
            ),
        decreases args@.len() - at,
    {
        if at >= args.len() {
            return Ok(values);
        }
        assert(all[at as int] == args@[at as int]@);
        if !(or_token(&args[at]) || symbol_is(&args[at], ",")) {
            return Err(expect_error("\"or\" or \",\" expected.", offset));
        }
        let (v, q) = match parse_value(args, at + 1, offset) {
            Ok(found) => found,
            Err(e) => {
                return Err(e);
            },
        };
        let ghost before = exprs_view(values@);
        values.push(v);
        assert(exprs_view(values@) =~= before.push(v@));
        at = q;
    }
}

/// The nodes from element `pos` on, up to the end or to a tag at which
/// the body ends, with the position of that tag.
pub(crate) fn parse_body(elements: &Vec<Element>, pos: usize, stops: &Stops, language: &Language) -> (r:
    core::result::Result<(Vec<Node>, usize), Error>)
    requires
        pos <= elements@.len(),
    ensures
        match (r, body_at(elements_view(elements@), pos as int, stops@, language@, Seq::empty())) {
            (Ok((nodes, end)), Ok((m, stop))) => nodes_view(nodes@) == m && end == stop && pos
                <= end <= elements@.len(),
            (Err(e), Err(m)) => e@ == m,
            _ => false,
        },
    decreases elements@.len() - pos, 3nat,
{
    let ghost all = elements_view(elements@);
    let ghost goal = body_at(all, pos as int, stops@, language@, Seq::empty());
    let mut done: Vec<Node> = Vec::new();
    assert(nodes_view(done@) =~= Seq::empty());
    let mut at: usize = pos;
    loop
        invariant
            pos <= at <= elements@.len(),
            all == elements_view(elements@),
            goal == body_at(all, pos as int, stops@, language@, Seq::empty()),
            goal == body_at(all, at as int, stops@, language@, nodes_view(done@)),
        decreases elements@.len() - at,
    {
        if at >= elements.len() {
            return Ok((done, at));
        }
        assert(all[at as int] == elements@[at as int]@);
        let ghost before = nodes_view(done@);
        match &elements[at] {
            Element::Text { text, offset } => {
                let node = Node::Text(Text::new(text.clone()));
                done.push(node);
                assert(nodes_view(done@) =~= before.push(node@));
                at += 1;
            },
            Element::Output { tokens, offset } => {
                let chain = match parse_chain(tokens, 0, language, *offset) {
                    Ok(chain) => chain,
                    Err(e) => {
                        return Err(e);
                    },
                };
                let node = Node::Output(chain);
                done.push(node);
                assert(nodes_view(done@) =~= before.push(node@));
                at += 1;
            },
            Element::Tag { name, tokens, offset } => {
                if stops.matches(name.as_str()) {
                    return Ok((done, at));
                }
                match language.blocks.get(name.as_str()) {
                    Some(parser) => {
                        let (node, p) = match parse_block(parser, elements, at, language) {
                            Ok(found) => found,
                            Err(e) => {
                                return Err(e);
                            },
                        };
                        done.push(node);
                        assert(nodes_view(done@) =~= before.push(node@));
                        at = p;
                    },
                    None => match language.tags.get(name.as_str()) {
                        Some(TagParser::Assign(_)) => {
                            let node = match parse_assign(tokens, language, *offset) {
                                Ok(node) => node,
                                Err(e) => {
                                    return Err(e);
                                },
                            };
                            done.push(node);
                            assert(nodes_view(done@) =~= before.push(node@));
                            at += 1;
                        },
                        None => {
                            return Err(tag_error(name.as_str(), *offset));
                        },
                    },
                }
            },
        }
    }
}

/// The block that the tag at element `pos` opens, with the position after
/// its end tag.
pub(crate) fn parse_block(
    parser: BlockParser,
    elements: &Vec<Element>,
    pos: usize,
    language: &Language,
) -> (r: core::result::Result<(Node, usize), Error>)
    requires
        pos < elements@.len(),
    ensures
        match (r, block_at(parser, elements_view(elements@), pos as int, language@)) {
            (Ok((node, end)), Ok((m, stop))) => node@ == m && end == stop && pos < end
                <= elements@.len(),
            (Err(e), Err(m)) => e@ == m,
            _ => false,
        },
    decreases elements@.len() - pos, 2nat,
{
    match parser {
        BlockParser::If(_) => parse_if("if", elements, pos, language),
        BlockParser::Unless(_) => parse_unless(elements, pos, language),
        BlockParser::Case(_) => parse_case(elements, pos, language),
    }
}

/// The body behind the `else` at element `pos`, up to the end tag named
/// `end`, with the position after that tag.
pub(crate) fn parse_second_body(
    elements: &Vec<Element>,
    pos: usize,
    language: &Language,
    end: &'static str,
    offset: usize,
) -> (r: core::result::Result<(Vec<Node>, usize), Error>)
    requires
        pos < elements@.len(),
    ensures
        match (
            r,
            second_body(elements_view(elements@), pos as int, language@, end@, offset as int),
        ) {
            (Ok((nodes, stop)), Ok((m, to))) => nodes_view(nodes@) == m && stop == to && pos < stop
                <= elements@.len(),
            (Err(e), Err(m)) => e@ == m,
            _ => false,
        },
    decreases elements@.len() - pos, 0nat,
{
    let len = elements.len();
    let stops = Stops { first: end, second: "else", third: "" };
    proof {
        reveal_strlit("");
        assert(stops@.third =~= Seq::<char>::empty());
        assert(stops@ == else_stops(end@));
    }
    let (body, p) = match parse_body(elements, pos + 1, &stops, language) {
        Ok(found) => found,
        Err(e) => {
            return Err(e);
        },
    };
    if p >= elements.len() {
        return Err(unclosed_error(offset));
    }
    assert(elements_view(elements@)[p as int] == elements@[p as int]@);
    match &elements[p] {
        Element::Tag { name, tokens, offset: at } => {
            if str_eq(name.as_str(), end) {
                Ok((body, p + 1))
            } else {
                Err(else_error(*at))
            }
        },
        _ => Err(unclosed_error(offset)),
    }
}

/// The `if` or `unless` of the given parts.
pub fn make_conditional(
    tag_name: &str,
    condition: crate::tags::condition::Condition,
    mode: bool,
    if_true: Vec<Node>,
    if_false: Option<Vec<Node>>,
) -> (n: Node)
    ensures
        n@ == (NodeModel::Conditional {
            tag_name: tag_name@,
            condition: condition@,
            mode,
            if_true: nodes_view(if_true@),
            if_false: match if_false {
                Some(body) => Some(nodes_view(body@)),
                None => None,
            },
        }),
{
    let if_false = match if_false {
        Some(body) => Some(Template { elements: body }),
        None => None,
    };
    Node::Conditional(
        Conditional {
            tag_name: tag_name.to_owned(),
            condition,
            mode,
            if_true: Template { elements: if_true },
            if_false,
        },
    )
}

/// The `if` whose condition the tag at element `pos` holds, with the
/// position after its `endif`.
pub(crate) fn parse_if(tag_name: &str, elements: &Vec<Element>, pos: usize, language: &Language) -> (r:
    core::result::Result<(Node, usize), Error>)
    requires
        pos < elements@.len(),
    ensures
        match (r, if_at(elements_view(elements@), pos as int, language@, tag_name@)) {
            (Ok((node, end)), Ok((m, stop))) => node@ == m && end == stop && pos < end
                <= elements@.len(),
            (Err(e), Err(m)) => e@ == m,
            _ => false,
        },
    decreases elements@.len() - pos, 1nat,
{
    let len = elements.len();
    let ghost all = elements_view(elements@);
    assert(all[pos as int] == elements@[pos as int]@);
    let (args, offset) = match &elements[pos] {
        Element::Tag { name, tokens, offset } => (tokens, *offset),
        _ => {
            return Err(unclosed_error(0));
        },
    };
    let condition = match parse_condition(args, 0, offset) {
        Ok(c) => c,
        Err(e) => {
            return Err(e);
        },
    };
    let stops = Stops { first: "endif", second: "else", third: "elsif" };
    let (if_true, p) = match parse_body(elements, pos + 1, &stops, language) {
        Ok(found) => found,
        Err(e) => {
            return Err(e);
        },
    };
    if p >= elements.len() {
        return Err(unclosed_error(offset));
    }
    assert(all[p as int] == elements@[p as int]@);
    match &elements[p] {
        Element::Tag { name, tokens, offset: at } => {
            if str_eq(name.as_str(), "endif") {
                let node = make_conditional(tag_name, condition, true, if_true, None);
                Ok((node, p + 1))
            } else if str_eq(name.as_str(), "else") {
                let (if_false, end) = match parse_second_body(
                    elements,
                    p,
                    language,
                    "endif",
                    offset,
                ) {
                    Ok(found) => found,
                    Err(e) => {
                        return Err(e);
                    },
                };
                let node = make_conditional(tag_name, condition, true, if_true, Some(if_false));
                Ok((node, end))
            } else {
                let (nested, end) = match parse_if("elsif", elements, p, language) {
                    Ok(found) => found,
                    Err(e) => {
                        return Err(e);
                    },
                };
                let mut if_false: Vec<Node> = Vec::new();
                if_false.push(nested);
                assert(nodes_view(if_false@) =~= seq![nested@]);
                let node = make_conditional(tag_name, condition, true, if_true, Some(if_false));
                Ok((node, end))
            }
        },
        _ => Err(unclosed_error(offset)),
    }
}

/// The `unless` whose condition the tag at element `pos` holds, with the
/// position after its `endunless`.
pub(crate) fn parse_unless(elements: &Vec<Element>, pos: usize, language: &Language) -> (r:
    core::result::Result<(Node, usize), Error>)
    requires
        pos < elements@.len(),
    ensures
        match (r, unless_at(elements_view(elements@), pos as int, language@)) {
            (Ok((node, end)), Ok((m, stop))) => node@ == m && end == stop && pos < end
                <= elements@.len(),
            (Err(e), Err(m)) => e@ == m,
            _ => false,
        },
    decreases elements@.len() - pos, 1nat,
{
    let len = elements.len();
    let ghost all = elements_view(elements@);
    assert(all[pos as int] == elements@[pos as int]@);
    let (args, offset) = match &elements[pos] {
        Element::Tag { name, tokens, offset } => (tokens, *offset),
        _ => {
            return Err(unclosed_error(0));
        },
    };
    let condition = match parse_condition(args, 0, offset) {
        Ok(c) => c,
        Err(e) => {
            return Err(e);
        },
    };
    let stops = Stops { first: "endunless", second: "else", third: "" };
    proof {
        reveal_strlit("");
        assert(stops@.third =~= Seq::<char>::empty());
        assert(stops@ == unless_stops());
    }
    let (if_true, p) = match parse_body(elements, pos + 1, &stops, language) {
        Ok(found) => found,
        Err(e) => {
            return Err(e);
        },
    };
    if p >= elements.len() {
        return Err(unclosed_error(offset));
    }
    assert(all[p as int] == elements@[p as int]@);
    match &elements[p] {
        Element::Tag { name, tokens, offset: at } => {
            if str_eq(name.as_str(), "endunless") {
                let node = make_conditional("unless", condition, false, if_true, None);
                Ok((node, p + 1))
            } else {
                let (if_false, end) = match parse_second_body(
                    elements,
                    p,
                    language,
                    "endunless",
                    offset,
                ) {
                    Ok(found) => found,
                    Err(e) => {
                        return Err(e);
                    },
                };
                let node = make_conditional("unless", condition, false, if_true, Some(if_false));
                Ok((node, end))
            }
        },
        _ => Err(unclosed_error(offset)),
    }
}

/// Whether the bodies of all branches are blank.
pub fn options_blank(cases: &Vec<CaseOption>) -> (b: bool)
    ensures
        b == branches_blank(options_view(cases@)),
{
    let ghost all = options_view(cases@);
    let mut i: usize = 0;
    while i < cases.len()
        invariant
            i <= cases@.len(),
            all == options_view(cases@),
            forall|j: int| 0 <= j < i ==> all_blank((#[trigger] all[j]).1),
        decreases cases@.len() - i,
    {
        assert(all[i as int].1 == nodes_view(cases@[i as int].template.elements@));
        if !crate::runtime::renderable::nodes_blank(&cases[i].template.elements) {
            return false;
        }
        i += 1;
    }
    true
}

/// The branches with the literal text taken out of their bodies.
pub fn options_without_text(cases: Vec<CaseOption>) -> (r: Vec<CaseOption>)
    ensures
        options_view(r@) == branches_without_text(options_view(cases@)),
{
    let ghost all = options_view(cases@);
    let mut kept: Vec<CaseOption> = Vec::new();
    for option in it: cases
        invariant
            all == options_view(cases@),
            it.seq() == cases@,
            kept@.len() == it.index(),
            forall|j: int|
                0 <= j < kept@.len() ==> exprs_view((#[trigger] kept@[j]).args@) == all[j].0
                    && nodes_view(kept@[j].template.elements@) == without_text(all[j].1),
    {
        let ghost i = it.index() as int;
        assert(all[i] == (exprs_view(option.args@), nodes_view(option.template.elements@)));
        let CaseOption { args, template } = option;
        let elements = crate::runtime::renderable::remove_text(template.elements);
        kept.push(CaseOption { args, template: Template { elements } });
    }
    assert(options_view(kept@) =~= branches_without_text(all));
    kept
}

/// The `case` of the given parts.
pub fn build_case(target: Expression, cases: Vec<CaseOption>, else_block: Option<Vec<Node>>) -> (n:
    Node)
    ensures
        n@ == case_node(
            target@,
            options_view(cases@),
            match else_block {
                Some(body) => Some(nodes_view(body@)),
                None => None,
            },
        ),
{
    let mut is_blank = options_blank(&cases);
    if is_blank {
        is_blank =
        match &else_block {
            Some(body) => crate::runtime::renderable::nodes_blank(body),
            None => true,
        };
    }
    if is_blank {
        let cases = options_without_text(cases);
        let else_block = match else_block {
            Some(body) => Some(Template { elements: crate::runtime::renderable::remove_text(body) }),
            None => None,
        };
        Node::Case(Case { is_blank, target, cases, else_block })
    } else {
        let else_block = match else_block {
            Some(body) => Some(Template { elements: body }),
            None => None,
        };
        Node::Case(Case { is_blank, target, cases, else_block })
    }
}

/// The branches of a `case` from the tag at element `pos` on, with the
/// body of `else` and the position after `endcase`.
pub(crate) fn parse_branches(elements: &Vec<Element>, pos: usize, language: &Language, offset: usize) -> (r:
    core::result::Result<(Vec<CaseOption>, Option<Vec<Node>>, usize), Error>)
    requires
        pos <= elements@.len(),
    ensures
        match (
            r,
            branches_at(elements_view(elements@), pos as int, language@, Seq::empty(), offset as int),
        ) {
            (Ok((cases, else_block, end)), Ok((m, body, stop))) => options_view(cases@) == m && (
            match (else_block, body) {
                (Some(x), Some(y)) => nodes_view(x@) == y,
                (None, None) => true,
                _ => false,
            }) && end == stop && pos < end <= elements@.len(),
            (Err(e), Err(m)) => e@ == m,
            _ => false,
        },
    decreases elements@.len() - pos, 1nat,
{
    let ghost all = elements_view(elements@);
    let ghost goal = branches_at(all, pos as int, language@, Seq::empty(), offset as int);
    let mut cases: Vec<CaseOption> = Vec::new();
    assert(options_view(cases@) =~= Seq::empty());
    let mut at: usize = pos;
    let stops = Stops { first: "endcase", second: "else", third: "when" };
    loop
        invariant
            pos <= at <= elements@.len(),
            all == elements_view(elements@),
            stops@ == case_stops(),
            goal == branches_at(all, pos as int, language@, Seq::empty(), offset as int),
            goal == branches_at(all, at as int, language@, options_view(cases@), offset as int),
        decreases elements@.len() - at,
    {
        if at >= elements.len() {
            return Err(unclosed_error(offset));
        }
        assert(all[at as int] == elements@[at as int]@);
        match &elements[at] {
            Element::Tag { name, tokens, offset: here } => {
                if str_eq(name.as_str(), "when") {
                    let args = match parse_when(tokens, *here) {
                        Ok(args) => args,
                        Err(e) => {
                            return Err(e);
                        },
                    };
                    let (body, p) = match parse_body(elements, at + 1, &stops, language) {
                        Ok(found) => found,
                        Err(e) => {
                            return Err(e);
                        },
                    };
                    let ghost before = options_view(cases@);
                    let option = CaseOption { args, template: Template { elements: body } };
                    cases.push(option);
                    assert(options_view(cases@) =~= before.push(
                        (exprs_view(option.args@), nodes_view(option.template.elements@)),
                    ));
                    at = p;
                } else if str_eq(name.as_str(), "else") {
                    if tokens.len() != 0 {
                        return Err(expect_error("Unexpected token.", *here));
                    }
                    return match parse_second_body(elements, at, language, "endcase", offset) {
                        Err(e) => Err(e),
                        Ok((body, end)) => Ok((cases, Some(body), end)),
                    };
                } else {
                    return Ok((cases, None, at + 1));
                }
            },
            _ => {
                return Err(unclosed_error(offset));
            },
        }
    }
}

/// The `case` whose target the tag at element `pos` holds, with the
/// position after its `endcase`.
pub(crate) fn parse_case(elements: &Vec<Element>, pos: usize, language: &Language) -> (r:
    core::result::Result<(Node, usize), Error>)
    requires
        pos < elements@.len(),
    ensures
        match (r, case_at(elements_view(elements@), pos as int, language@)) {
            (Ok((node, end)), Ok((m, stop))) => node@ == m && end == stop && pos < end
                <= elements@.len(),
            (Err(e), Err(m)) => e@ == m,
            _ => false,
        },
    decreases elements@.len() - pos, 1nat,
{
    let len = elements.len();
    let ghost all = elements_view(elements@);
    assert(all[pos as int] == elements@[pos as int]@);
    let (args, offset) = match &elements[pos] {
        Element::Tag { name, tokens, offset } => (tokens, *offset),
        _ => {
            return Err(unclosed_error(0));
        },
    };
    let (target, used) = match parse_value(args, 0, offset) {
        Ok(found) => found,
        Err(e) => {
            return Err(e);
        },
    };
    if used != args.len() {
        return Err(expect_error("Unexpected token.", offset));
    }
    let stops = Stops { first: "endcase", second: "else", third: "when" };
    let (_, p) = match parse_body(elements, pos + 1, &stops, language) {
        Ok(found) => found,
        Err(e) => {
            return Err(e);
        },
    };
    match parse_branches(elements, p, language, offset) {
        Err(e) => Err(e),
        Ok((cases, else_block, end)) => Ok((build_case(target, cases, else_block), end)),
    }
}

} // verus!
