//! Tables.
use crate::errors::{SyntaxError, SyntaxErrorKind, SyntaxErrorView};
use crate::nodes::node::{Node, NodeView};
use crate::nodes::stmt::{parse_stmt_at, spec_parse_stmt, stmt_starts_at, stmt_view, Stmt, StmtView};
use crate::parxt::{
    error_here, outcome, parsed_view, segment_text, span, token_at, token_error, token_ref, Parxt,
};
use crate::token::{Lexeme, LexemeView, Token, TokenView};
use vstd::prelude::*;

verus! {

/// An ordered, possibly empty sequence of statements: none, a last one, or
/// one and those that follow it.
#[derive(Debug, PartialEq, Eq)]
pub enum Table {
    Head(Node<Stmt>, Box<Node<Table>>),
    Tail(Node<Stmt>),
    Empty,
}

/// The mathematical value of a [`Table`].
pub ghost enum TableView {
    Head(NodeView<StmtView>, Box<NodeView<TableView>>),
    Tail(NodeView<StmtView>),
    Empty,
}

/// The value of a table.
pub open spec fn table_view(table: Table) -> TableView
    decreases table,
{
    match table {
        Table::Head(stmt, rest) => TableView::Head(
            NodeView { position: stmt.position, node: stmt_view(stmt.node) },
            Box::new(NodeView { position: rest.position, node: table_view(rest.node) }),
        ),
        Table::Tail(stmt) => TableView::Tail(
            NodeView { position: stmt.position, node: stmt_view(stmt.node) },
        ),
        Table::Empty => TableView::Empty,
    }
}

impl DeepView for Table {
    type V = TableView;

    open spec fn deep_view(&self) -> TableView {
        table_view(*self)
    }
}

/// What parsing a table yields: the table and the index after it, or an error.
pub type ParsedTable = Result<(NodeView<TableView>, int), SyntaxErrorView>;

/// The index after an optional `;` or `,` at index `i`.
pub open spec fn after_separator(tokens: Seq<LexemeView>, i: int) -> int {
    if token_at(tokens, i) matches Some(TokenView::Sep(_)) {
        i + 1
    } else {
        i
    }
}

/// One or more statements from index `i` on, each optionally followed by a
/// separator: the sequence goes on for as long as another statement can begin.
/// (The first branch is never taken: a statement that parses consumes at least
/// one token. It is there to make the definition well-founded on its own.)
pub open spec fn spec_table_items(tokens: Seq<LexemeView>, i: int) -> ParsedTable
    decreases tokens.len() - i, 1int,
{
    match spec_parse_stmt(tokens, i) {
        Err(e) => Err(e),
        Ok((head, next)) => {
            let resume = after_separator(tokens, next);
            if next <= i {
                Err(token_error(SyntaxErrorKind::ExpectedTableClose, tokens, i))
            } else if segment_text(token_at(tokens, resume)) is Some {
                match spec_table_items(tokens, resume) {
                    Ok((rest, after)) => Ok(
                        (
                            NodeView {
                                position: span(head.position, rest.position),
                                node: TableView::Head(head, Box::new(rest)),
                            },
                            after,
                        ),
                    ),
                    Err(e) => Err(e),
                }
            } else {
                Ok((NodeView { position: head.position, node: TableView::Tail(head) }, resume))
            }
        },
    }
}

/// A table at index `i`: `{`, then either `}` at once (the empty
/// table) or one or more statements and then `}`.
/// Its position runs from the `{` to the `}`.
pub open spec fn spec_parse_table(tokens: Seq<LexemeView>, i: int) -> ParsedTable
    decreases tokens.len() - i, 0int,
{
    if token_at(tokens, i) != Some(TokenView::LBrace) {
        Err(token_error(SyntaxErrorKind::ExpectedTable, tokens, i))
    } else if token_at(tokens, i + 1) == Some(TokenView::RBrace) {
        Ok(
            (
                NodeView {
                    position: span(tokens[i].position, tokens[i + 1].position),
                    node: TableView::Empty,
                },
                i + 2,
            ),
        )
    } else {
        match spec_table_items(tokens, i + 1) {
            Ok((items, next)) => {
                if token_at(tokens, next) == Some(TokenView::RBrace) {
                    Ok(
                        (
                            NodeView {
                                position: span(tokens[i].position, tokens[next].position),
                                node: items.node,
                            },
                            next + 1,
                        ),
                    )
                } else {
                    Err(token_error(SyntaxErrorKind::ExpectedTableClose, tokens, next))
                }
            },
            Err(e) => Err(e),
        }
    }
}

/// Skips an optional `;` or `,` at index `i`.
pub fn skip_separator(tokens: &[Lexeme], i: usize) -> (next: usize)
    requires
        i <= tokens@.len(),
    ensures
        next == after_separator(tokens.deep_view(), i as int),
        i <= next <= tokens@.len(),
{
    match token_ref(tokens, i) {
        Some(Token::Sep(_)) => i + 1,
        _ => i,
    }
}

/// Parses one or more statements from index `i` on.
pub fn table_items_at(tokens: &[Lexeme], i: usize) -> (r: Result<(Node<Table>, usize), SyntaxError>)
    ensures
        parsed_view(r) == spec_table_items(tokens.deep_view(), i as int),
        r matches Ok((_, next)) ==> i < next <= tokens@.len(),
    decreases tokens@.len() - i, 1int,
{
    match parse_stmt_at(tokens, i) {
        Err(e) => Err(e),
        Ok((head, next)) => {
            let resume = skip_separator(tokens, next);
            if stmt_starts_at(tokens, resume) {
                match table_items_at(tokens, resume) {
                    Ok((rest, after)) => {
                        let position = head.position.combine(&rest.position);
                        Ok((Node { position, node: Table::Head(head, Box::new(rest)) }, after))
                    },
                    Err(e) => Err(e),
                }
            } else {
                Ok((Node { position: head.position, node: Table::Tail(head) }, resume))
            }
        },
    }
}

/// Parses a table at index `i`.
pub fn parse_table_at(tokens: &[Lexeme], i: usize) -> (r: Result<(Node<Table>, usize), SyntaxError>)
    ensures
        parsed_view(r) == spec_parse_table(tokens.deep_view(), i as int),
        r matches Ok((_, next)) ==> i < next <= tokens@.len(),
    decreases tokens@.len() - i, 0int,
{
    match token_ref(tokens, i) {
        Some(Token::LBrace) => {},
        _ => {
            return Err(error_here(SyntaxErrorKind::ExpectedTable, tokens, i));
        },
    }
    let closed = match token_ref(tokens, i + 1) {
        Some(Token::RBrace) => true,
        _ => false,
    };
    if closed {
        let position = tokens[i].position.combine(&tokens[i + 1].position);
        return Ok((Node { position, node: Table::Empty }, i + 2));
    }
    match table_items_at(tokens, i + 1) {
        Ok((items, next)) => {
            let closes = match token_ref(tokens, next) {
                Some(Token::RBrace) => true,
                _ => false,
            };
            if closes {
                let position = tokens[i].position.combine(&tokens[next].position);
                Ok((Node { position, node: items.node }, next + 1))
            } else {
                Err(error_here(SyntaxErrorKind::ExpectedTableClose, tokens, next))
            }
        },
        Err(e) => Err(e),
    }
}

impl Table {
    /// Parses a table: `{`, its statements, `}`. Statements that are not
    /// followed by `}` are an expected-closing-brace failure.
    /// On failure the context stays where it was.
    pub fn parse(parxt: &mut Parxt<'_>) -> (r: Result<Node<Table>, SyntaxError>)
        ensures
            final(parxt).tokens == old(parxt).tokens,
            outcome(r, final(parxt).idx) == spec_parse_table(
                old(parxt).tokens.deep_view(),
                old(parxt).idx as int,
            ),
            r is Err ==> final(parxt).idx == old(parxt).idx,
    {
        match parse_table_at(parxt.tokens, parxt.idx) {
            Ok((node, next)) => {
                parxt.idx = next;
                Ok(node)
            },
            Err(e) => Err(e),
        }
    }

    /// Parses one or more statements, each optionally followed by `;` or `,`,
    /// for as long as another statement can begin.
    pub fn table_item(parxt: &mut Parxt<'_>) -> (r: Result<Node<Table>, SyntaxError>)
        ensures
            final(parxt).tokens == old(parxt).tokens,
            outcome(r, final(parxt).idx) == spec_table_items(
                old(parxt).tokens.deep_view(),
                old(parxt).idx as int,
            ),
            r is Err ==> final(parxt).idx == old(parxt).idx,
    {
        match table_items_at(parxt.tokens, parxt.idx) {
            Ok((node, next)) => {
                parxt.idx = next;
                Ok(node)
            },
            Err(e) => Err(e),
        }
    }
}

} // verus!
