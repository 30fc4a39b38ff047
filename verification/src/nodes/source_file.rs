//! A whole script.
use crate::errors::{SyntaxError, SyntaxErrorKind, SyntaxErrorView};
use crate::nodes::node::{Node, NodeView};
use crate::nodes::table::{spec_table_items, table_items_at, Table, TableView};
use crate::parxt::{error_here, token_error};
use crate::position::Position;
use crate::token::{Lexeme, LexemeView};
use vstd::prelude::*;

verus! {

/// A whole script: its statements, as a table without braces.
#[derive(Debug, PartialEq, Eq)]
pub struct SourceFile {
    pub body: Node<Table>,
}

/// The mathematical value of a [`SourceFile`].
pub ghost struct SourceFileView {
    pub body: NodeView<TableView>,
}

impl DeepView for SourceFile {
    type V = SourceFileView;

    open spec fn deep_view(&self) -> SourceFileView {
        SourceFileView { body: self.body.deep_view() }
    }
}

/// A script: no tokens at all, or statements up to the end of the input. A
/// token that is left over after the last statement is an
/// expected-statement failure.
pub open spec fn spec_parse_source(tokens: Seq<LexemeView>) -> Result<
    SourceFileView,
    SyntaxErrorView,
> {
    if tokens.len() == 0 {
        Ok(
            SourceFileView {
                body: NodeView { position: Position { start: 0, end: 0 }, node: TableView::Empty },
            },
        )
    } else {
        match spec_table_items(tokens, 0) {
            Ok((body, next)) => {
                if next >= tokens.len() {
                    Ok(SourceFileView { body })
                } else {
                    Err(token_error(SyntaxErrorKind::ExpectedStmt, tokens, next))
                }
            },
            Err(e) => Err(e),
        }
    }
}

/// The value of the result of parsing a script.
pub open spec fn source_view(r: Result<SourceFile, SyntaxError>) -> Result<
    SourceFileView,
    SyntaxErrorView,
> {
    match r {
        Ok(file) => Ok(file.deep_view()),
        Err(e) => Err(e.deep_view()),
    }
}

impl SourceFile {
    /// Parses a whole token sequence as a script.
    ///
    /// The result is exactly [`spec_parse_source`] of the tokens: the
    /// statements in source order, or the first failure.
    pub fn parse(tokens: &[Lexeme]) -> (r: Result<SourceFile, SyntaxError>)
        ensures
            source_view(r) == spec_parse_source(tokens.deep_view()),
    {
        if tokens.len() == 0 {
            return Ok(
                SourceFile {
                    body: Node { position: Position { start: 0, end: 0 }, node: Table::Empty },
                },
            );
        }
        match table_items_at(tokens, 0) {
            Ok((body, next)) => {
                if next >= tokens.len() {
                    Ok(SourceFile { body })
                } else {
                    Err(error_here(SyntaxErrorKind::ExpectedStmt, tokens, next))
                }
            },
            Err(e) => Err(e),
        }
    }
}

} // verus!
