//! Expressions.
use crate::errors::{SyntaxError, SyntaxErrorKind, SyntaxErrorView};
use crate::views::lemma_push_deep_view;
use crate::nodes::node::{Node, NodeView};
use crate::parxt::{error_here, outcome, parsed_view, span, token_at, token_error, token_ref, Parxt};
use crate::token::{Lexeme, LexemeView, Token, TokenView};
use vstd::prelude::*;

verus! {

/// A parenthesised expression. Expressions have no meaning yet: the tokens
/// between the parentheses are kept as they were read.
#[derive(Debug, PartialEq, Eq)]
pub struct Expr {
    pub tokens: Vec<Lexeme>,
}

/// The mathematical value of an [`Expr`].
pub ghost struct ExprView {
    pub tokens: Seq<LexemeView>,
}

impl DeepView for Expr {
    type V = ExprView;

    open spec fn deep_view(&self) -> ExprView {
        ExprView { tokens: self.tokens.deep_view() }
    }
}

/// The index of the `)` that closes an expression, looking from index `j`
/// on with `depth` more parentheses open inside it.
pub open spec fn close_paren(tokens: Seq<LexemeView>, j: int, depth: nat) -> Option<int>
    decreases tokens.len() - j,
{
    if j < 0 || j >= tokens.len() {
        None
    } else {
        match tokens[j].token {
            TokenView::RParen => if depth == 0 {
                Some(j)
            } else {
                close_paren(tokens, j + 1, (depth - 1) as nat)
            },
            TokenView::LParen => close_paren(tokens, j + 1, depth + 1),
            _ => close_paren(tokens, j + 1, depth),
        }
    }
}

/// An expression at index `i`: a `(`, and everything up to the `)` that
/// matches it.
pub open spec fn spec_parse_expr(tokens: Seq<LexemeView>, i: int) -> Result<
    (NodeView<ExprView>, int),
    SyntaxErrorView,
> {
    if token_at(tokens, i) != Some(TokenView::LParen) {
        Err(token_error(SyntaxErrorKind::ExpectedExpr, tokens, i))
    } else {
        match close_paren(tokens, i + 1, 0) {
            Some(close) => Ok(
                (
                    NodeView {
                        position: span(tokens[i].position, tokens[close].position),
                        node: ExprView { tokens: tokens.subrange(i + 1, close) },
                    },
                    close + 1,
                ),
            ),
            None => Err(
                token_error(SyntaxErrorKind::ExpectedExprClose, tokens, tokens.len() as int),
            ),
        }
    }
}

/// The closing parenthesis lies at or after the index where the search began.
pub proof fn lemma_close_paren_bounds(tokens: Seq<LexemeView>, j: int, depth: nat)
    requires
        0 <= j,
    ensures
        close_paren(tokens, j, depth) matches Some(close) ==> j <= close < tokens.len(),
    decreases tokens.len() - j,
{
    if j < tokens.len() {
        match tokens[j].token {
            TokenView::RParen => if depth != 0 {
                lemma_close_paren_bounds(tokens, j + 1, (depth - 1) as nat);
            },
            TokenView::LParen => lemma_close_paren_bounds(tokens, j + 1, depth + 1),
            _ => lemma_close_paren_bounds(tokens, j + 1, depth),
        }
    }
}

/// Parses an expression at index `i`.
pub fn parse_expr_at(tokens: &[Lexeme], i: usize) -> (r: Result<(Node<Expr>, usize), SyntaxError>)
    ensures
        parsed_view(r) == spec_parse_expr(tokens.deep_view(), i as int),
        r matches Ok((_, next)) ==> i < next <= tokens@.len(),
{
    let n: usize = tokens.len();
    match token_ref(tokens, i) {
        Some(Token::LParen) => {},
        _ => {
            return Err(error_here(SyntaxErrorKind::ExpectedExpr, tokens, i));
        },
    }
    let mut inner: Vec<Lexeme> = Vec::new();
    let mut depth: usize = 0;
    let mut j: usize = i + 1;
    assert(inner.deep_view() =~= tokens.deep_view().subrange(i + 1, j as int));
    while j < n
        invariant
            n == tokens@.len(),
            i < j <= n,
            depth <= j - (i + 1),
            token_at(tokens.deep_view(), i as int) == Some(TokenView::LParen),
            close_paren(tokens.deep_view(), i + 1, 0) == close_paren(
                tokens.deep_view(),
                j as int,
                depth as nat,
            ),
            inner.deep_view() == tokens.deep_view().subrange(i + 1, j as int),
        decreases n - j,
    {
        assert(tokens.deep_view()[j as int] == tokens@[j as int].deep_view());
        assert(tokens.deep_view()[i as int] == tokens@[i as int].deep_view());
        match &tokens[j].token {
            Token::RParen => {
                if depth == 0 {
                    let position = tokens[i].position.combine(&tokens[j].position);
                    return Ok((Node { position, node: Expr { tokens: inner } }, j + 1));
                }
                depth -= 1;
            },
            Token::LParen => {
                depth += 1;
            },
            _ => {},
        }
        let item = tokens[j].copy();
        let ghost before = inner;
        let ghost pushed = item;
        inner.push(item);
        proof {
            lemma_push_deep_view(before, inner, pushed);
            assert(inner.deep_view() =~= tokens.deep_view().subrange(i + 1, j + 1));
        }
        j += 1;
    }
    Err(error_here(SyntaxErrorKind::ExpectedExprClose, tokens, n))
}

impl Expr {
    /// Parses a parenthesised expression and keeps its tokens. Without a `(`
    /// this is an expected-expression failure; without the matching `)`, an
    /// expected-closing-parenthesis failure at the end of the input.
    pub fn parse(parxt: &mut Parxt<'_>) -> (r: Result<Node<Expr>, SyntaxError>)
        ensures
            final(parxt).tokens == old(parxt).tokens,
            outcome(r, final(parxt).idx) == spec_parse_expr(
                old(parxt).tokens.deep_view(),
                old(parxt).idx as int,
            ),
            r is Err ==> final(parxt).idx == old(parxt).idx,
    {
        match parse_expr_at(parxt.tokens, parxt.idx) {
            Ok((node, next)) => {
                parxt.idx = next;
                Ok(node)
            },
            Err(e) => Err(e),
        }
    }
}

} // verus!
