//! Every parsing rule consumes input.
use crate::nodes::atom::spec_parse_atom;
use crate::nodes::expr::{lemma_close_paren_bounds, spec_parse_expr};
use crate::nodes::list::{spec_list_items, spec_parse_list};
use crate::nodes::path::lemma_parse_path_advances;
use crate::nodes::stmt::spec_parse_stmt;
use crate::nodes::table::{after_separator, spec_parse_table, spec_table_items};
use crate::token::LexemeView;
use vstd::prelude::*;

verus! {

/// An expression that parses ends after where it began, inside the input.
pub proof fn lemma_expr_advances(tokens: Seq<LexemeView>, i: int)
    requires
        0 <= i,
    ensures
        spec_parse_expr(tokens, i) matches Ok((_, next)) ==> i < next <= tokens.len(),
{
    lemma_close_paren_bounds(tokens, i + 1, 0);
}

/// An atom that parses ends after where it began, inside the input.
pub proof fn lemma_atom_advances(tokens: Seq<LexemeView>, i: int)
    requires
        0 <= i,
    ensures
        spec_parse_atom(tokens, i) matches Ok((_, next)) ==> i < next <= tokens.len(),
    decreases tokens.len() - i, 1int,
{
    lemma_expr_advances(tokens, i);
    lemma_parse_path_advances(tokens, i);
    if i < tokens.len() {
        lemma_table_advances(tokens, i);
        lemma_list_advances(tokens, i);
        match crate::nodes::path::spec_parse_path_strict(tokens, i) {
            Ok((_, next)) => {
                if next < tokens.len() {
                    lemma_atom_advances(tokens, next + 1);
                }
            },
            Err(_) => {},
        }
    }
}

/// A statement that parses ends after where it began, inside the input.
pub proof fn lemma_stmt_advances(tokens: Seq<LexemeView>, i: int)
    requires
        0 <= i,
    ensures
        spec_parse_stmt(tokens, i) matches Ok((_, next)) ==> i < next <= tokens.len(),
    decreases tokens.len() - i, 0int,
{
    lemma_parse_path_advances(tokens, i);
    match crate::nodes::path::spec_parse_path_strict(tokens, i) {
        Ok((_, next)) => {
            if next < tokens.len() {
                lemma_atom_advances(tokens, next + 1);
            }
        },
        Err(_) => {},
    }
}

/// Statements that parse end after where they began, inside the input.
pub proof fn lemma_table_items_advance(tokens: Seq<LexemeView>, i: int)
    requires
        0 <= i,
    ensures
        spec_table_items(tokens, i) matches Ok((_, next)) ==> i < next <= tokens.len(),
    decreases tokens.len() - i, 1int,
{
    lemma_stmt_advances(tokens, i);
    match spec_parse_stmt(tokens, i) {
        Ok((_, next)) => {
            let resume = after_separator(tokens, next);
            if next > i && resume < tokens.len() {
                lemma_table_items_advance(tokens, resume);
            }
        },
        Err(_) => {},
    }
}

/// A table that parses ends after where it began, inside the input.
pub proof fn lemma_table_advances(tokens: Seq<LexemeView>, i: int)
    requires
        0 <= i,
    ensures
        spec_parse_table(tokens, i) matches Ok((_, next)) ==> i < next <= tokens.len(),
    decreases tokens.len() - i, 0int,
{
    if i + 1 < tokens.len() {
        lemma_table_items_advance(tokens, i + 1);
    }
}

/// Atoms that parse end after where they began, inside the input.
pub proof fn lemma_list_items_advance(tokens: Seq<LexemeView>, i: int)
    requires
        0 <= i,
    ensures
        spec_list_items(tokens, i) matches Ok((_, next)) ==> i < next <= tokens.len(),
    decreases tokens.len() - i, 2int,
{
    if i < tokens.len() {
        lemma_atom_advances(tokens, i);
    }
    match spec_parse_atom(tokens, i) {
        Ok((_, next)) => {
            let resume = after_separator(tokens, next);
            if next > i && resume < tokens.len() {
                lemma_list_items_advance(tokens, resume);
            }
        },
        Err(_) => {},
    }
}

/// A list that parses ends after where it began, inside the input.
pub proof fn lemma_list_advances(tokens: Seq<LexemeView>, i: int)
    requires
        0 <= i,
    ensures
        spec_parse_list(tokens, i) matches Ok((_, next)) ==> i < next <= tokens.len(),
    decreases tokens.len() - i, 0int,
{
    if i + 1 < tokens.len() {
        lemma_list_items_advance(tokens, i + 1);
    }
}

} // verus!
