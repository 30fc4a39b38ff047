//! The parser's view of its input: a token sequence and a place in it.
use crate::errors::{Culprit, CulpritView, SyntaxError, SyntaxErrorKind, SyntaxErrorView};
use crate::nodes::node::{Node, NodeView};
use crate::position::Position;
use crate::text::{bool_string, bool_text, decimal_string, decimal_text};
use crate::token::{Lexeme, LexemeView, Token, TokenView};
use vstd::prelude::*;

verus! {

/// A token sequence and the index of the token that is looked at.
#[derive(Debug, Clone, Copy)]
pub struct Parxt<'a> {
    pub tokens: &'a [Lexeme],
    pub idx: usize,
}

/// The token at index `i`, if there is one.
pub open spec fn token_at(tokens: Seq<LexemeView>, i: int) -> Option<TokenView> {
    if 0 <= i < tokens.len() {
        Some(tokens[i].token)
    } else {
        None
    }
}

/// The position of the token at index `i`; past the last token, the empty
/// range at the end of the last token (or at offset 0 if there is none).
pub open spec fn position_at(tokens: Seq<LexemeView>, i: int) -> Position {
    if 0 <= i < tokens.len() {
        tokens[i].position
    } else if tokens.len() == 0 {
        Position { start: 0, end: 0 }
    } else {
        let end = tokens[tokens.len() - 1].position.end;
        Position { start: end, end }
    }
}

/// The error of the given kind at index `i`: it is positioned at the token
/// there and blames it, or the end of the input.
pub open spec fn token_error(
    kind: SyntaxErrorKind,
    tokens: Seq<LexemeView>,
    i: int,
) -> SyntaxErrorView {
    SyntaxErrorView {
        kind,
        position: position_at(tokens, i),
        culprit: match token_at(tokens, i) {
            Some(t) => CulpritView::Token(t),
            None => CulpritView::EndOfInput,
        },
        suggestion: Seq::empty(),
    }
}

/// The range from the start of `first` to the end of `last`.
pub open spec fn span(first: Position, last: Position) -> Position {
    Position { start: first.start, end: last.end }
}

/// The text of a token as a path segment: identifiers and strings as they
/// are, integers and booleans as they are written. Other tokens are no
/// segments.
pub open spec fn segment_text(token: Option<TokenView>) -> Option<Seq<char>> {
    match token {
        Some(TokenView::Ident(x)) => Some(x),
        Some(TokenView::Str(x)) => Some(x),
        Some(TokenView::Int(n)) => Some(decimal_text(n as nat)),
        Some(TokenView::Bool(b)) => Some(bool_text(b)),
        _ => None,
    }
}

/// The value of a parsing result: the node's value and the index after it,
/// or the error's value.
pub open spec fn parsed_view<N: DeepView>(r: Result<(Node<N>, usize), SyntaxError>) -> Result<
    (NodeView<N::V>, int),
    SyntaxErrorView,
> {
    match r {
        Ok((node, next)) => Ok((node.deep_view(), next as int)),
        Err(e) => Err(e.deep_view()),
    }
}

/// The value of a parsing step made through a [`Parxt`]: as [`parsed_view`],
/// with the index that the context was left at.
pub open spec fn outcome<N: DeepView>(r: Result<Node<N>, SyntaxError>, idx: usize) -> Result<
    (NodeView<N::V>, int),
    SyntaxErrorView,
> {
    match r {
        Ok(node) => Ok((node.deep_view(), idx as int)),
        Err(e) => Err(e.deep_view()),
    }
}

/// The token at index `i`, if there is one.
pub fn token_ref<'a>(tokens: &'a [Lexeme], i: usize) -> (t: Option<&'a Token>)
    ensures
        tokens@.len() <= usize::MAX,
        match t {
            Some(t) => i < tokens@.len() && t == tokens@[i as int].token && token_at(
                tokens.deep_view(),
                i as int,
            ) == Some(t.deep_view()),
            None => i >= tokens@.len() && token_at(tokens.deep_view(), i as int) is None,
        },
{
    if i < tokens.len() {
        Some(&tokens[i].token)
    } else {
        None
    }
}

/// The position of index `i`, as [`position_at`] defines it.
pub fn position_here(tokens: &[Lexeme], i: usize) -> (p: Position)
    ensures
        p == position_at(tokens.deep_view(), i as int),
{
    if i < tokens.len() {
        tokens[i].position
    } else if tokens.len() == 0 {
        Position { start: 0, end: 0 }
    } else {
        let end = tokens[tokens.len() - 1].position.end;
        Position { start: end, end }
    }
}

/// Builds the error of the given kind at index `i`.
pub fn error_here(kind: SyntaxErrorKind, tokens: &[Lexeme], i: usize) -> (e: SyntaxError)
    ensures
        e.deep_view() == token_error(kind, tokens.deep_view(), i as int),
{
    let culprit = if i < tokens.len() {
        Culprit::Token(tokens[i].token.copy())
    } else {
        Culprit::EndOfInput
    };
    SyntaxError { kind, position: position_here(tokens, i), culprit, suggestion: String::new() }
}

/// The text of `token` as a path segment, if it is one.
pub fn segment_string(token: Option<&Token>) -> (s: Option<String>)
    ensures
        match s {
            Some(s) => segment_text(token.deep_view()) == Some(s@),
            None => segment_text(token.deep_view()) is None,
        },
{
    match token {
        Some(Token::Ident(x)) => Some(x.clone()),
        Some(Token::Str(x)) => Some(x.clone()),
        Some(Token::Int(n)) => Some(decimal_string(*n)),
        Some(Token::Bool(b)) => Some(bool_string(*b)),
        _ => None,
    }
}

impl<'a> Parxt<'a> {
    /// A context at the first token of `tokens`.
    pub fn new(tokens: &'a [Lexeme]) -> (p: Parxt<'a>)
        ensures
            p.tokens == tokens,
            p.idx == 0,
    {
        Parxt { tokens, idx: 0 }
    }

    /// The token that is looked at, if the input has not ended.
    pub fn current(&self) -> (t: Option<&'a Token>)
        ensures
            match t {
                Some(t) => token_at(self.tokens.deep_view(), self.idx as int) == Some(
                    t.deep_view(),
                ),
                None => token_at(self.tokens.deep_view(), self.idx as int) is None,
            },
    {
        token_ref(self.tokens, self.idx)
    }

    /// The position of the token that is looked at, as [`position_at`] defines it.
    pub fn position(&self) -> (p: Position)
        ensures
            p == position_at(self.tokens.deep_view(), self.idx as int),
    {
        position_here(self.tokens, self.idx)
    }

    /// Whether every token has been consumed.
    pub fn done(&self) -> (b: bool)
        ensures
            b == (self.idx >= self.tokens@.len()),
    {
        self.idx >= self.tokens.len()
    }
}

} // verus!
