//! The tokens inside an output or a tag.

use vstd::prelude::*;
use crate::parser::lexer::remaining;
use crate::parser::scan::{
    distance_to_char, find_char, is_ident_start, letter, run_len, skip_run, CharClass,
};
use crate::text::{digit_of, is_digit, string_of_range};

verus! {

/// The kinds of tokens.
#[derive(Clone, Copy, Debug, PartialEq, Eq, Structural)]
pub enum TokenKind {
    /// A name: a letter or `_`, then letters, digits, `_` and `-`.
    Identifier,
    /// Digits, with or without a `-` in front.
    Integer,
    /// Digits, a point and digits, with or without a `-` in front.
    Float,
    /// What stands between two `"` or two `'`.
    Str,
    /// An operator or a punctuation mark.
    Symbol,
}

/// A token as mathematical data. The text of a string is what stands
/// between its quotes; that of any other token is the token as written.
pub struct TokenModel {
    pub kind: TokenKind,
    pub text: Seq<char>,
}

/// Whether `a` followed by `b` is a symbol of two characters.
pub open spec fn is_symbol_pair(a: char, b: char) -> bool {
    (a == '=' && b == '=') || (a == '!' && b == '=') || (a == '<' && b == '>') || (a == '<' && b
        == '=') || (a == '>' && b == '=') || (a == '.' && b == '.')
}

/// Whether `c` is a symbol of one character.
pub open spec fn is_symbol_char(c: char) -> bool {
    c == '<' || c == '>' || c == '=' || c == ',' || c == ':' || c == '|' || c == '.' || c == '['
        || c == ']' || c == '(' || c == ')'
}

/// The length of the symbol at position `at`; 0 where none stands.
pub open spec fn symbol_len(s: Seq<char>, at: int) -> nat {
    if 0 <= at && at + 1 < s.len() && is_symbol_pair(s[at], s[at + 1]) {
        2
    } else if 0 <= at < s.len() && is_symbol_char(s[at]) {
        1
    } else {
        0
    }
}

/// Whether a number starts at position `at`: a digit, or a `-` with a
/// digit behind it.
pub open spec fn starts_number(s: Seq<char>, at: int) -> bool {
    0 <= at < s.len() && (is_digit(s[at]) || (s[at] == '-' && at + 1 < s.len() && is_digit(
        s[at + 1],
    )))
}

/// The position after the sign and the first run of digits of the number
/// at `at`.
pub open spec fn whole_end(s: Seq<char>, at: int) -> int {
    let first = if s[at] == '-' {
        at + 1
    } else {
        at
    };
    first + run_len(s, first, CharClass::Digit)
}

/// Whether the number at `at` goes on with a point and digits.
pub open spec fn has_fraction(s: Seq<char>, at: int) -> bool {
    let end = whole_end(s, at);
    end + 1 < s.len() && s[end] == '.' && is_digit(s[end + 1])
}

/// The token at position `at`, which holds no whitespace, with the number
/// of characters it takes; none where no token starts there or a string
/// lacks its closing quote.
pub open spec fn token_at(s: Seq<char>, at: int) -> Option<(TokenModel, nat)> {
    if at < 0 || at >= s.len() {
        None
    } else if is_ident_start(s[at]) {
        let n = run_len(s, at, CharClass::IdentPart);
        Some((TokenModel { kind: TokenKind::Identifier, text: s.subrange(at, at + n) }, n))
    } else if starts_number(s, at) {
        let end = whole_end(s, at);
        if has_fraction(s, at) {
            let stop = end + 1 + run_len(s, end + 1, CharClass::Digit);
            Some(
                (
                    TokenModel { kind: TokenKind::Float, text: s.subrange(at, stop) },
                    (stop - at) as nat,
                ),
            )
        } else {
            Some(
                (
                    TokenModel { kind: TokenKind::Integer, text: s.subrange(at, end) },
                    (end - at) as nat,
                ),
            )
        }
    } else if s[at] == '"' || s[at] == '\'' {
        match distance_to_char(s, at + 1, s[at]) {
            Some(d) => Some(
                (TokenModel { kind: TokenKind::Str, text: s.subrange(at + 1, at + 1 + d) }, d + 2),
            ),
            None => None,
        }
    } else if symbol_len(s, at) > 0 {
        let n = symbol_len(s, at);
        Some((TokenModel { kind: TokenKind::Symbol, text: s.subrange(at, at + n) }, n))
    } else {
        None
    }
}

/// The tokens of `s` from position `pos` on, after those in `done`; none
/// where something stands that is no token.
pub open spec fn tokens_scan(s: Seq<char>, pos: int, done: Seq<TokenModel>) -> Option<
    Seq<TokenModel>,
>
    decreases remaining(s, pos),
{
    let at = pos + run_len(s, pos, CharClass::Space);
    if pos < 0 || at >= s.len() {
        Some(done)
    } else {
        match token_at(s, at) {
            Some((token, n)) => if n == 0 {
                None
            } else {
                tokens_scan(s, at + n, done.push(token))
            },
            None => None,
        }
    }
}

/// The tokens of `s`: the tokens that stand in it, with any whitespace
/// between them.
pub open spec fn tokens_of(s: Seq<char>) -> Option<Seq<TokenModel>> {
    tokens_scan(s, 0, Seq::empty())
}

/// A token.
#[derive(Debug)]
pub struct Token {
    pub kind: TokenKind,
    pub text: String,
}

impl View for Token {
    type V = TokenModel;

    open spec fn view(&self) -> TokenModel {
        TokenModel { kind: self.kind, text: self.text@ }
    }
}

/// The tokens as mathematical data.
pub open spec fn tokens_view(tokens: Seq<Token>) -> Seq<TokenModel> {
    Seq::new(tokens.len(), |i: int| tokens[i]@)
}

impl Token {
    /// The text of the token.
    pub fn as_str(&self) -> (s: &str)
        ensures
            s@ == self@.text,
    {
        self.text.as_str()
    }
}

/// Whether `a` followed by `b` is a symbol of two characters.
pub fn symbol_pair(a: char, b: char) -> (r: bool)
    ensures
        r == is_symbol_pair(a, b),
{
    (a == '=' && b == '=') || (a == '!' && b == '=') || (a == '<' && b == '>') || (a == '<' && b
        == '=') || (a == '>' && b == '=') || (a == '.' && b == '.')
}

/// Whether `c` is a symbol of one character.
pub fn symbol_char(c: char) -> (r: bool)
    ensures
        r == is_symbol_char(c),
{
    c == '<' || c == '>' || c == '=' || c == ',' || c == ':' || c == '|' || c == '.' || c == '['
        || c == ']' || c == '(' || c == ')'
}

/// The token at position `at`, with the position after it.
pub(crate) fn read_token(s: &Vec<char>, at: usize) -> (r: Option<(Token, usize)>)
    requires
        at < s@.len(),
    ensures
        match r {
            Some((token, end)) => at <= end <= s@.len() && token_at(s@, at as int) == Some(
                (token@, (end - at) as nat),
            ),
            None => token_at(s@, at as int) is None,
        },
{
    let c = s[at];
    let len = s.len();
    if letter(c) || c == '_' {
        let end = skip_run(s, at, CharClass::IdentPart);
        let text = string_of_range(s, at, end);
        Some((Token { kind: TokenKind::Identifier, text }, end))
    } else if digit_of(c).is_some() || (c == '-' && len - at > 1 && digit_of(s[at + 1]).is_some()) {
        let first: usize = if c == '-' {
            at + 1
        } else {
            at
        };
        let end = skip_run(s, first, CharClass::Digit);
        if len - end > 1 && s[end] == '.' && digit_of(s[end + 1]).is_some() {
            let stop = skip_run(s, end + 1, CharClass::Digit);
            let text = string_of_range(s, at, stop);
            Some((Token { kind: TokenKind::Float, text }, stop))
        } else {
            let text = string_of_range(s, at, end);
            Some((Token { kind: TokenKind::Integer, text }, end))
        }
    } else if c == '"' || c == '\'' {
        match find_char(s, at + 1, c) {
            Some(close) => {
                let text = string_of_range(s, at + 1, close);
                Some((Token { kind: TokenKind::Str, text }, close + 1))
            },
            None => None,
        }
    } else if len - at > 1 && symbol_pair(c, s[at + 1]) {
        let text = string_of_range(s, at, at + 2);
        Some((Token { kind: TokenKind::Symbol, text }, at + 2))
    } else if symbol_char(c) {
        let text = string_of_range(s, at, at + 1);
        Some((Token { kind: TokenKind::Symbol, text }, at + 1))
    } else {
        None
    }
}

/// The tokens of `s`.
pub fn tokenize(s: &Vec<char>) -> (r: Option<Vec<Token>>)
    ensures
        match (r, tokens_of(s@)) {
            (Some(tokens), Some(m)) => tokens_view(tokens@) == m,
            (None, None) => true,
            _ => false,
        },
{
    let mut tokens: Vec<Token> = Vec::new();
    let mut pos: usize = 0;
    assert(tokens_view(tokens@) =~= Seq::empty());
    loop
        invariant
            pos <= s@.len(),
            tokens_of(s@) == tokens_scan(s@, pos as int, tokens_view(tokens@)),
        decreases s@.len() - pos,
    {
        let at = skip_run(s, pos, CharClass::Space);
        if at >= s.len() {
            return Some(tokens);
        }
        let ghost done = tokens_view(tokens@);
        match read_token(s, at) {
            Some((token, end)) => {
                if end == at {
                    return None;
                }
                tokens.push(token);
                assert(tokens_view(tokens@) =~= done.push(token@));
                pos = end;
            },
            None => {
                return None;
            },
        }
    }
}

/// Where `q` does not occur in `s`, the first `q` behind `front + s` is
/// the one that follows `s`.
pub proof fn lemma_distance_past(front: Seq<char>, s: Seq<char>, q: char, from: int)
    requires
        front.len() <= from <= front.len() + s.len(),
        forall|i: int| 0 <= i < s.len() ==> s[i] != q,
    ensures
        distance_to_char(front + s + seq![q], from, q) == Some(
            (front.len() + s.len() - from) as nat,
        ),
    decreases front.len() + s.len() - from,
{
    let all = front + s + seq![q];
    if from == front.len() + s.len() {
        assert(all[from] == q);
    } else {
        assert(all[from] == s[from - front.len()]);
        lemma_distance_past(front, s, q, from + 1);
    }
}

/// A string without a double quote, written between double quotes, is
/// read back as the token of that string.
pub proof fn lemma_string_round_trip(s: Seq<char>)
    requires
        forall|i: int| 0 <= i < s.len() ==> s[i] != '"',
    ensures
        tokens_of(seq!['"'] + s + seq!['"']) == Some(
            seq![TokenModel { kind: TokenKind::Str, text: s }],
        ),
{
    let all = seq!['"'] + s + seq!['"'];
    lemma_distance_past(seq!['"'], s, '"', 1);
    assert(all[0] == '"');
    assert(run_len(all, 0, CharClass::Space) == 0);
    assert(!is_ident_start(all[0]));
    assert(!starts_number(all, 0));
    assert(all.subrange(1, 1 + s.len() as int) =~= s);
    let token = TokenModel { kind: TokenKind::Str, text: s };
    assert(token_at(all, 0) == Some((token, (s.len() + 2) as nat)));
    let end = s.len() as int + 2;
    assert(end == all.len());
    assert(run_len(all, end, CharClass::Space) == 0);
    assert(tokens_scan(all, end, Seq::<TokenModel>::empty().push(token)) == Some(
        Seq::<TokenModel>::empty().push(token),
    ));
    assert(Seq::<TokenModel>::empty().push(token) =~= seq![token]);
}

} // verus!
