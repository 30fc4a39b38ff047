//! Lists.
use crate::errors::{SyntaxError, SyntaxErrorKind, SyntaxErrorView};
use crate::nodes::atom::{
    atom_starts_at, atom_view, parse_atom_at, spec_parse_atom, starts_atom, Atom, AtomView,
};
use crate::nodes::node::{Node, NodeView};
use crate::nodes::table::{after_separator, skip_separator};
use crate::parxt::{error_here, outcome, parsed_view, span, token_at, token_error, token_ref, Parxt};
use crate::token::{Lexeme, LexemeView, Token, TokenView};
use vstd::prelude::*;

verus! {

/// An ordered, possibly empty sequence of atoms: none, a last one, or one
/// and those that follow it.
#[derive(Debug, PartialEq, Eq)]
pub enum List {
    Head(Node<Atom>, Box<Node<List>>),
    Tail(Node<Atom>),
    Empty,
}

/// The mathematical value of a [`List`].
pub ghost enum ListView {
    Head(NodeView<AtomView>, Box<NodeView<ListView>>),
    Tail(NodeView<AtomView>),
    Empty,
}

/// The value of a list.
pub open spec fn list_view(list: List) -> ListView
    decreases list,
{
    match list {
        List::Head(atom, rest) => ListView::Head(
            NodeView { position: atom.position, node: atom_view(atom.node) },
            Box::new(NodeView { position: rest.position, node: list_view(rest.node) }),
        ),
        List::Tail(atom) => ListView::Tail(
            NodeView { position: atom.position, node: atom_view(atom.node) },
        ),
        List::Empty => ListView::Empty,
    }
}

impl DeepView for List {
    type V = ListView;

    open spec fn deep_view(&self) -> ListView {
        list_view(*self)
    }
}

/// What parsing a list yields: the list and the index after it, or an error.
pub type ParsedList = Result<(NodeView<ListView>, int), SyntaxErrorView>;

/// One or more atoms from index `i` on, each optionally followed by a
/// separator: the sequence goes on for as long as another atom can begin.
/// (The first branch is never taken: an atom that parses consumes at least
/// one token. It is there to make the definition well-founded on its own.)
pub open spec fn spec_list_items(tokens: Seq<LexemeView>, i: int) -> ParsedList
    decreases tokens.len() - i, 2int,
{
    match spec_parse_atom(tokens, i) {
        Err(e) => Err(e),
        Ok((head, next)) => {
            let resume = after_separator(tokens, next);
            if next <= i {
                Err(token_error(SyntaxErrorKind::ExpectedListClose, tokens, i))
            } else if starts_atom(token_at(tokens, resume)) {
                match spec_list_items(tokens, resume) {
                    Ok((rest, after)) => Ok(
                        (
                            NodeView {
                                position: span(head.position, rest.position),
                                node: ListView::Head(head, Box::new(rest)),
                            },
                            after,
                        ),
                    ),
                    Err(e) => Err(e),
                }
            } else {
                Ok((NodeView { position: head.position, node: ListView::Tail(head) }, resume))
            }
        },
    }
}

/// A list at index `i`: `[`, then either `]` at once (the empty
/// list) or one or more atoms and then `]`.
/// Its position runs from the `[` to the `]`.
pub open spec fn spec_parse_list(tokens: Seq<LexemeView>, i: int) -> ParsedList
    decreases tokens.len() - i, 0int,
{
    if token_at(tokens, i) != Some(TokenView::LBracket) {
        Err(token_error(SyntaxErrorKind::ExpectedList, tokens, i))
    } else if token_at(tokens, i + 1) == Some(TokenView::RBracket) {
        Ok(
            (
                NodeView {
                    position: span(tokens[i].position, tokens[i + 1].position),
                    node: ListView::Empty,
                },
                i + 2,
            ),
        )
    } else {
        match spec_list_items(tokens, i + 1) {
            Ok((items, next)) => {
                if token_at(tokens, next) == Some(TokenView::RBracket) {
                    Ok(
                        (
                            NodeView {
                                position: span(tokens[i].position, tokens[next].position),
                                node: items.node,
                            },
                            next + 1,
                        ),
                    )
                } else {
                    Err(token_error(SyntaxErrorKind::ExpectedListClose, tokens, next))
                }
            },
            Err(e) => Err(e),
        }
    }
}

/// Parses one or more atoms from index `i` on.
pub fn list_items_at(tokens: &[Lexeme], i: usize) -> (r: Result<(Node<List>, usize), SyntaxError>)
    ensures
        parsed_view(r) == spec_list_items(tokens.deep_view(), i as int),
        r matches Ok((_, next)) ==> i < next <= tokens@.len(),
    decreases tokens@.len() - i, 2int,
{
    match parse_atom_at(tokens, i) {
        Err(e) => Err(e),
        Ok((head, next)) => {
            let resume = skip_separator(tokens, next);
            if atom_starts_at(tokens, resume) {
                match list_items_at(tokens, resume) {
                    Ok((rest, after)) => {
                        let position = head.position.combine(&rest.position);
                        Ok((Node { position, node: List::Head(head, Box::new(rest)) }, after))
                    },
                    Err(e) => Err(e),
                }
            } else {
                Ok((Node { position: head.position, node: List::Tail(head) }, resume))
            }
        },
    }
}

/// Parses a list at index `i`.
pub fn parse_list_at(tokens: &[Lexeme], i: usize) -> (r: Result<(Node<List>, usize), SyntaxError>)
    ensures
        parsed_view(r) == spec_parse_list(tokens.deep_view(), i as int),
        r matches Ok((_, next)) ==> i < next <= tokens@.len(),
    decreases tokens@.len() - i, 0int,
{
    match token_ref(tokens, i) {
        Some(Token::LBracket) => {},
        _ => {
            return Err(error_here(SyntaxErrorKind::ExpectedList, tokens, i));
        },
    }
    let closed = match token_ref(tokens, i + 1) {
        Some(Token::RBracket) => true,
        _ => false,
    };
    if closed {
        let position = tokens[i].position.combine(&tokens[i + 1].position);
        return Ok((Node { position, node: List::Empty }, i + 2));
    }
    match list_items_at(tokens, i + 1) {
        Ok((items, next)) => {
            let closes = match token_ref(tokens, next) {
                Some(Token::RBracket) => true,
                _ => false,
            };
            if closes {
                let position = tokens[i].position.combine(&tokens[next].position);
                Ok((Node { position, node: items.node }, next + 1))
            } else {
                Err(error_here(SyntaxErrorKind::ExpectedListClose, tokens, next))
            }
        },
        Err(e) => Err(e),
    }
}

impl List {
    /// Parses a list: `[`, its atoms, `]`. Atoms that are not
    /// followed by `]` are an expected-closing-bracket failure.
    /// On failure the context stays where it was.
    pub fn parse(parxt: &mut Parxt<'_>) -> (r: Result<Node<List>, SyntaxError>)
        ensures
            final(parxt).tokens == old(parxt).tokens,
            outcome(r, final(parxt).idx) == spec_parse_list(
                old(parxt).tokens.deep_view(),
                old(parxt).idx as int,
            ),
            r is Err ==> final(parxt).idx == old(parxt).idx,
    {
        match parse_list_at(parxt.tokens, parxt.idx) {
            Ok((node, next)) => {
                parxt.idx = next;
                Ok(node)
            },
            Err(e) => Err(e),
        }
    }

    /// Parses one or more atoms, each optionally followed by `;` or `,`,
    /// for as long as another atom can begin.
    pub fn list_item(parxt: &mut Parxt<'_>) -> (r: Result<Node<List>, SyntaxError>)
        ensures
            final(parxt).tokens == old(parxt).tokens,
            outcome(r, final(parxt).idx) == spec_list_items(
                old(parxt).tokens.deep_view(),
                old(parxt).idx as int,
            ),
            r is Err ==> final(parxt).idx == old(parxt).idx,
    {
        match list_items_at(parxt.tokens, parxt.idx) {
            Ok((node, next)) => {
                parxt.idx = next;
                Ok(node)
            },
            Err(e) => Err(e),
        }
    }
}

} // verus!
