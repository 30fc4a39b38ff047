//! Statements.
use crate::errors::{SyntaxError, SyntaxErrorKind, SyntaxErrorView};
use crate::nodes::atom::{atom_view, parse_atom_at, spec_parse_atom, Atom, AtomView};
use crate::nodes::node::{Node, NodeView};
use crate::nodes::path::{
    lemma_parse_path_advances, parse_path_strict_at, spec_parse_path_strict, Path, PathView,
};
use crate::parxt::{
    error_here, outcome, parsed_view, segment_text, span, token_at, token_error, token_ref, Parxt,
};
use crate::token::{Lexeme, LexemeView, Token, TokenView};
use vstd::prelude::*;

verus! {

/// A single assignment: `path : atom` or `path = atom`.
#[derive(Debug, PartialEq, Eq)]
pub enum Stmt {
    Config(Node<Path>, Node<Atom>),
}

/// The mathematical value of a [`Stmt`].
pub ghost enum StmtView {
    Config(NodeView<PathView>, NodeView<AtomView>),
}

/// The value of a statement.
pub open spec fn stmt_view(stmt: Stmt) -> StmtView
    decreases stmt,
{
    match stmt {
        Stmt::Config(path, atom) => StmtView::Config(
            path.deep_view(),
            NodeView { position: atom.position, node: atom_view(atom.node) },
        ),
    }
}

impl DeepView for Stmt {
    type V = StmtView;

    open spec fn deep_view(&self) -> StmtView {
        stmt_view(*self)
    }
}

/// What parsing a statement yields: the statement and the index after it, or
/// an error.
pub type ParsedStmt = Result<(NodeView<StmtView>, int), SyntaxErrorView>;

/// Whether the token at index `i` is `:` or `=`.
pub open spec fn assigns_at(tokens: Seq<LexemeView>, i: int) -> bool {
    token_at(tokens, i) matches Some(TokenView::Assign(_))
}

/// A statement at index `i`: a path that begins with an identifier, `:` or
/// `=`, and an atom. A token that is no path segment is an
/// expected-statement failure.
pub open spec fn spec_parse_stmt(tokens: Seq<LexemeView>, i: int) -> ParsedStmt
    decreases tokens.len() - i, 0int,
{
    if segment_text(token_at(tokens, i)) is None {
        Err(token_error(SyntaxErrorKind::ExpectedStmt, tokens, i))
    } else {
        match spec_parse_path_strict(tokens, i) {
            Ok((path, next)) => {
                if assigns_at(tokens, next) {
                    proof {
                        lemma_parse_path_advances(tokens, i);
                    }
                    match spec_parse_atom(tokens, next + 1) {
                        Ok((atom, after)) => Ok(
                            (
                                NodeView {
                                    position: span(path.position, atom.position),
                                    node: StmtView::Config(path, atom),
                                },
                                after,
                            ),
                        ),
                        Err(e) => Err(e),
                    }
                } else {
                    Err(token_error(SyntaxErrorKind::ExpectedAssign, tokens, next))
                }
            },
            Err(e) => Err(e),
        }
    }
}

/// Whether a statement can begin at index `i`: whether a path segment stands there.
pub fn stmt_starts_at(tokens: &[Lexeme], i: usize) -> (b: bool)
    ensures
        b == (segment_text(token_at(tokens.deep_view(), i as int)) is Some),
{
    match token_ref(tokens, i) {
        Some(Token::Ident(_)) | Some(Token::Str(_)) | Some(Token::Int(_)) | Some(
            Token::Bool(_),
        ) => true,
        _ => false,
    }
}

/// Parses a statement at index `i`.
pub fn parse_stmt_at(tokens: &[Lexeme], i: usize) -> (r: Result<(Node<Stmt>, usize), SyntaxError>)
    ensures
        parsed_view(r) == spec_parse_stmt(tokens.deep_view(), i as int),
        r matches Ok((_, next)) ==> i < next <= tokens@.len(),
    decreases tokens@.len() - i, 0int,
{
    if !stmt_starts_at(tokens, i) {
        return Err(error_here(SyntaxErrorKind::ExpectedStmt, tokens, i));
    }
    proof {
        lemma_parse_path_advances(tokens.deep_view(), i as int);
    }
    match parse_path_strict_at(tokens, i) {
        Ok((path, next)) => {
            let assigns = match token_ref(tokens, next) {
                Some(Token::Assign(_)) => true,
                _ => false,
            };
            if assigns {
                match parse_atom_at(tokens, next + 1) {
                    Ok((atom, after)) => {
                        let position = path.position.combine(&atom.position);
                        Ok((Node { position, node: Stmt::Config(path, atom) }, after))
                    },
                    Err(e) => Err(e),
                }
            } else {
                Err(error_here(SyntaxErrorKind::ExpectedAssign, tokens, next))
            }
        },
        Err(e) => Err(e),
    }
}

impl Stmt {
    /// Parses a statement: a path that begins with an identifier, then `:`
    /// or `=`, then an atom. A missing `:` or `=` is an
    /// expected-assignment-operator failure. On failure the context stays
    /// where it was.
    pub fn parse(parxt: &mut Parxt<'_>) -> (r: Result<Node<Stmt>, SyntaxError>)
        ensures
            final(parxt).tokens == old(parxt).tokens,
            outcome(r, final(parxt).idx) == spec_parse_stmt(
                old(parxt).tokens.deep_view(),
                old(parxt).idx as int,
            ),
            r is Err ==> final(parxt).idx == old(parxt).idx,
    {
        match parse_stmt_at(parxt.tokens, parxt.idx) {
            Ok((node, next)) => {
                parxt.idx = next;
                Ok(node)
            },
            Err(e) => Err(e),
        }
    }
}

} // verus!
