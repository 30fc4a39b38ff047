//! Atoms: everything that can stand to the right of an assignment.
use crate::errors::{SyntaxError, SyntaxErrorKind, SyntaxErrorView};
use crate::nodes::expr::{parse_expr_at, spec_parse_expr, Expr, ExprView};
use crate::nodes::list::{list_view, parse_list_at, spec_parse_list, List, ListView};
use crate::nodes::node::{Node, NodeView};
use crate::nodes::path::{
    lemma_parse_path_advances, parse_path_strict_at, spec_parse_path_strict, Path, PathView,
};
use crate::nodes::table::{parse_table_at, spec_parse_table, table_view, Table, TableView};
use crate::parxt::{error_here, outcome, parsed_view, span, token_at, token_error, token_ref, Parxt};
use crate::token::{Lexeme, LexemeView, Token, TokenView};
use vstd::prelude::*;

verus! {

/// A value-producing piece of syntax.
#[derive(Debug, PartialEq, Eq)]
pub enum Atom {
    /// An integer literal.
    Int(u64),
    /// A string literal.
    Str(String),
    /// `true` or `false`.
    Bool(bool),
    /// A reference to another key, relative to the enclosing scope.
    Path(Node<Path>),
    /// `[ ... ]`
    List(Box<Node<List>>),
    /// `{ ... }`
    Table(Box<Node<Table>>),
    /// `( ... )`
    Expr(Box<Node<Expr>>),
    /// `path >> atom`: the atom, resolved under `path` instead of the
    /// enclosing scope.
    Apply(Node<Path>, Box<Node<Atom>>),
    /// A verbatim literal.
    RawConf(String),
}

/// The mathematical value of an [`Atom`].
pub ghost enum AtomView {
    Int(u64),
    Str(Seq<char>),
    Bool(bool),
    Path(NodeView<PathView>),
    List(Box<NodeView<ListView>>),
    Table(Box<NodeView<TableView>>),
    Expr(Box<NodeView<ExprView>>),
    Apply(NodeView<PathView>, Box<NodeView<AtomView>>),
    RawConf(Seq<char>),
}

/// The value of an atom, with the value of everything nested in it.
pub open spec fn atom_view(atom: Atom) -> AtomView
    decreases atom,
{
    match atom {
        Atom::Int(x) => AtomView::Int(x),
        Atom::Str(x) => AtomView::Str(x@),
        Atom::Bool(x) => AtomView::Bool(x),
        Atom::Path(path) => AtomView::Path(path.deep_view()),
        Atom::List(list) => AtomView::List(
            Box::new(NodeView { position: list.position, node: list_view(list.node) }),
        ),
        Atom::Table(table) => AtomView::Table(
            Box::new(NodeView { position: table.position, node: table_view(table.node) }),
        ),
        Atom::Expr(expr) => AtomView::Expr(Box::new(expr.deep_view())),
        Atom::Apply(path, inner) => AtomView::Apply(
            path.deep_view(),
            Box::new(NodeView { position: inner.position, node: atom_view(inner.node) }),
        ),
        Atom::RawConf(x) => AtomView::RawConf(x@),
    }
}

impl DeepView for Atom {
    type V = AtomView;

    open spec fn deep_view(&self) -> AtomView {
        atom_view(*self)
    }
}

/// What parsing an atom yields: the atom and the index after it, or an error.
pub type ParsedAtom = Result<(NodeView<AtomView>, int), SyntaxErrorView>;

/// Whether an atom can begin with this token.
pub open spec fn starts_atom(token: Option<TokenView>) -> bool {
    match token {
        Some(TokenView::LParen) | Some(TokenView::LBrace) | Some(TokenView::LBracket) | Some(
            TokenView::Ident(_),
        ) | Some(TokenView::Int(_)) | Some(TokenView::Bool(_)) | Some(TokenView::Str(_)) | Some(
            TokenView::RawConf(_),
        ) => true,
        _ => false,
    }
}

/// An atom at index `i`, chosen by the token there: `(` opens an expression,
/// `{` a table, `[` a list; an identifier begins a path, which is the prefix
/// of an apply if `>>` follows it and a reference otherwise; a literal token
/// is its own atom. Anything else is an expected-atom failure.
pub open spec fn spec_parse_atom(tokens: Seq<LexemeView>, i: int) -> ParsedAtom
    decreases tokens.len() - i, 1int,
{
    match token_at(tokens, i) {
        Some(TokenView::LParen) => match spec_parse_expr(tokens, i) {
            Ok((expr, next)) => Ok(
                (NodeView { position: expr.position, node: AtomView::Expr(Box::new(expr)) }, next),
            ),
            Err(e) => Err(e),
        },
        Some(TokenView::LBrace) => match spec_parse_table(tokens, i) {
            Ok((table, next)) => Ok(
                (
                    NodeView { position: table.position, node: AtomView::Table(Box::new(table)) },
                    next,
                ),
            ),
            Err(e) => Err(e),
        },
        Some(TokenView::LBracket) => match spec_parse_list(tokens, i) {
            Ok((list, next)) => Ok(
                (NodeView { position: list.position, node: AtomView::List(Box::new(list)) }, next),
            ),
            Err(e) => Err(e),
        },
        Some(TokenView::Ident(_)) => match spec_parse_path_strict(tokens, i) {
            Ok((path, next)) => {
                if token_at(tokens, next) == Some(TokenView::Apply) {
                    proof {
                        lemma_parse_path_advances(tokens, i);
                    }
                    match spec_parse_atom(tokens, next + 1) {
                        Ok((inner, after)) => Ok(
                            (
                                NodeView {
                                    position: span(path.position, inner.position),
                                    node: AtomView::Apply(path, Box::new(inner)),
                                },
                                after,
                            ),
                        ),
                        Err(e) => Err(e),
                    }
                } else {
                    Ok((NodeView { position: path.position, node: AtomView::Path(path) }, next))
                }
            },
            Err(e) => Err(e),
        },
        Some(TokenView::Int(x)) => Ok(
            (NodeView { position: tokens[i].position, node: AtomView::Int(x) }, i + 1),
        ),
        Some(TokenView::Bool(x)) => Ok(
            (NodeView { position: tokens[i].position, node: AtomView::Bool(x) }, i + 1),
        ),
        Some(TokenView::Str(x)) => Ok(
            (NodeView { position: tokens[i].position, node: AtomView::Str(x) }, i + 1),
        ),
        Some(TokenView::RawConf(x)) => Ok(
            (NodeView { position: tokens[i].position, node: AtomView::RawConf(x) }, i + 1),
        ),
        _ => Err(token_error(SyntaxErrorKind::ExpectedAtom, tokens, i)),
    }
}

/// Whether an atom can begin at index `i`.
pub fn atom_starts_at(tokens: &[Lexeme], i: usize) -> (b: bool)
    ensures
        b == starts_atom(token_at(tokens.deep_view(), i as int)),
{
    match token_ref(tokens, i) {
        Some(Token::LParen) | Some(Token::LBrace) | Some(Token::LBracket) | Some(Token::Ident(_))
        | Some(Token::Int(_)) | Some(Token::Bool(_)) | Some(Token::Str(_)) | Some(
            Token::RawConf(_),
        ) => true,
        _ => false,
    }
}

/// Parses an atom at index `i`.
pub fn parse_atom_at(tokens: &[Lexeme], i: usize) -> (r: Result<(Node<Atom>, usize), SyntaxError>)
    ensures
        parsed_view(r) == spec_parse_atom(tokens.deep_view(), i as int),
        r matches Ok((_, next)) ==> i < next <= tokens@.len(),
    decreases tokens@.len() - i, 1int,
{
    match token_ref(tokens, i) {
        Some(Token::LParen) => match parse_expr_at(tokens, i) {
            Ok((expr, next)) => Ok(
                (Node { position: expr.position, node: Atom::Expr(Box::new(expr)) }, next),
            ),
            Err(e) => Err(e),
        },
        Some(Token::LBrace) => match parse_table_at(tokens, i) {
            Ok((table, next)) => Ok(
                (Node { position: table.position, node: Atom::Table(Box::new(table)) }, next),
            ),
            Err(e) => Err(e),
        },
        Some(Token::LBracket) => match parse_list_at(tokens, i) {
            Ok((list, next)) => Ok(
                (Node { position: list.position, node: Atom::List(Box::new(list)) }, next),
            ),
            Err(e) => Err(e),
        },
        Some(Token::Ident(_)) => {
            proof {
                lemma_parse_path_advances(tokens.deep_view(), i as int);
            }
            match parse_path_strict_at(tokens, i) {
                Ok((path, next)) => {
                    let applied = match token_ref(tokens, next) {
                        Some(Token::Apply) => true,
                        _ => false,
                    };
                    if applied {
                        match parse_atom_at(tokens, next + 1) {
                            Ok((inner, after)) => {
                                let position = path.position.combine(&inner.position);
                                Ok(
                                    (
                                        Node { position, node: Atom::Apply(path, Box::new(inner)) },
                                        after,
                                    ),
                                )
                            },
                            Err(e) => Err(e),
                        }
                    } else {
                        Ok((Node { position: path.position, node: Atom::Path(path) }, next))
                    }
                },
                Err(e) => Err(e),
            }
        },
        Some(Token::Int(x)) => Ok(
            (Node { position: tokens[i].position, node: Atom::Int(*x) }, i + 1),
        ),
        Some(Token::Bool(x)) => Ok(
            (Node { position: tokens[i].position, node: Atom::Bool(*x) }, i + 1),
        ),
        Some(Token::Str(x)) => Ok(
            (Node { position: tokens[i].position, node: Atom::Str(x.clone()) }, i + 1),
        ),
        Some(Token::RawConf(x)) => Ok(
            (Node { position: tokens[i].position, node: Atom::RawConf(x.clone()) }, i + 1),
        ),
        _ => Err(error_here(SyntaxErrorKind::ExpectedAtom, tokens, i)),
    }
}

impl Atom {
    /// Parses an atom: an expression, a table, a list, a path (alone, or as
    /// the prefix of an apply when `>>` follows) or a literal. On failure the
    /// context stays where it was.
    pub fn parse(parxt: &mut Parxt<'_>) -> (r: Result<Node<Atom>, SyntaxError>)
        ensures
            final(parxt).tokens == old(parxt).tokens,
            outcome(r, final(parxt).idx) == spec_parse_atom(
                old(parxt).tokens.deep_view(),
                old(parxt).idx as int,
            ),
            r is Err ==> final(parxt).idx == old(parxt).idx,
    {
        match parse_atom_at(parxt.tokens, parxt.idx) {
            Ok((node, next)) => {
                parxt.idx = next;
                Ok(node)
            },
            Err(e) => Err(e),
        }
    }
}

} // verus!
