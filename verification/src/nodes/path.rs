//! Dotted paths.
use crate::errors::{CulpritView, SyntaxError, SyntaxErrorKind, SyntaxErrorView};
use crate::nodes::node::{Node, NodeView};
use crate::parxt::{
    error_here, outcome, parsed_view, position_at, segment_string, segment_text, span, token_at,
    token_error, token_ref, Parxt,
};
use crate::text::push_text;
use crate::token::{Lexeme, LexemeView, Token, TokenView};
use vstd::prelude::*;

verus! {

/// A non-empty dotted path: a last segment, or a segment and the path after
/// the dot that follows it.
#[derive(Debug, PartialEq, Eq)]
pub enum Path {
    More(String, Box<Node<Path>>),
    Tail(String),
}

/// The mathematical value of a [`Path`].
pub ghost enum PathView {
    More(Seq<char>, Box<NodeView<PathView>>),
    Tail(Seq<char>),
}

/// The value of a path: each segment's text, and each tail with its position.
pub open spec fn path_view(path: Path) -> PathView
    decreases path,
{
    match path {
        Path::More(head, tail) => PathView::More(
            head@,
            Box::new(NodeView { position: tail.position, node: path_view(tail.node) }),
        ),
        Path::Tail(head) => PathView::Tail(head@),
    }
}

impl DeepView for Path {
    type V = PathView;

    open spec fn deep_view(&self) -> PathView {
        path_view(*self)
    }
}

impl Path {
    /// The first segment of the path.
    pub fn get_head(self) -> (head: String)
        ensures
            head@ == self.deep_view().head(),
    {
        match self {
            Path::More(x, _) => x,
            Path::Tail(x) => x,
        }
    }
}

impl PathView {
    /// The first segment.
    pub open spec fn head(self) -> Seq<char> {
        match self {
            PathView::More(head, _) => head,
            PathView::Tail(head) => head,
        }
    }
}

/// What parsing a path yields: the path and the index after it, or an error.
pub type ParsedPath = Result<(NodeView<PathView>, int), SyntaxErrorView>;

/// One path segment at index `i`: an identifier, a string, an integer or a
/// boolean, the latter two as they are written.
pub open spec fn spec_path_ident(tokens: Seq<LexemeView>, i: int) -> ParsedPath {
    match segment_text(token_at(tokens, i)) {
        Some(text) => Ok(
            (NodeView { position: tokens[i].position, node: PathView::Tail(text) }, i + 1),
        ),
        None => Err(token_error(SyntaxErrorKind::ExpectedPath, tokens, i)),
    }
}

/// A path at index `i`: a segment, and after each dot another one.
pub open spec fn spec_parse_path(tokens: Seq<LexemeView>, i: int) -> ParsedPath
    decreases tokens.len() - i,
{
    match segment_text(token_at(tokens, i)) {
        None => Err(token_error(SyntaxErrorKind::ExpectedPath, tokens, i)),
        Some(head) => {
            if token_at(tokens, i + 1) == Some(TokenView::Dot) {
                if segment_text(token_at(tokens, i + 2)) is None {
                    Err(token_error(SyntaxErrorKind::ExpectedPathIdent, tokens, i + 2))
                } else {
                    match spec_parse_path(tokens, i + 2) {
                        Ok((tail, next)) => Ok(
                            (
                                NodeView {
                                    position: span(tokens[i].position, tail.position),
                                    node: PathView::More(head, Box::new(tail)),
                                },
                                next,
                            ),
                        ),
                        Err(e) => Err(e),
                    }
                }
            } else {
                Ok((NodeView { position: tokens[i].position, node: PathView::Tail(head) }, i + 1))
            }
        },
    }
}

/// The segments that can be read from index `i` on, joined by dots.
pub open spec fn dotted_text(tokens: Seq<LexemeView>, i: int) -> Seq<char>
    decreases tokens.len() - i,
{
    match segment_text(token_at(tokens, i)) {
        None => Seq::empty(),
        Some(head) => {
            if token_at(tokens, i + 1) == Some(TokenView::Dot) && segment_text(
                token_at(tokens, i + 2),
            ) is Some {
                head + seq!['.'] + dotted_text(tokens, i + 2)
            } else {
                head
            }
        },
    }
}

/// The error for a path at index `i` that begins with a literal: it suggests
/// the whole dotted path, written as one quoted string.
pub open spec fn head_error(tokens: Seq<LexemeView>, i: int) -> SyntaxErrorView {
    SyntaxErrorView {
        kind: SyntaxErrorKind::PathHeadNotIdent,
        position: position_at(tokens, i),
        culprit: match token_at(tokens, i) {
            Some(t) => CulpritView::Token(t),
            None => CulpritView::EndOfInput,
        },
        suggestion: seq!['"'] + dotted_text(tokens, i) + seq!['"'],
    }
}

/// A path at index `i` whose first segment has to be an identifier. A string,
/// integer or boolean there is refused with a suggestion; any other token is
/// no path at all.
pub open spec fn spec_parse_path_strict(tokens: Seq<LexemeView>, i: int) -> ParsedPath {
    match token_at(tokens, i) {
        Some(TokenView::Ident(_)) => spec_parse_path(tokens, i),
        Some(TokenView::Str(_)) | Some(TokenView::Int(_)) | Some(TokenView::Bool(_)) => Err(
            head_error(tokens, i),
        ),
        _ => Err(token_error(SyntaxErrorKind::ExpectedPath, tokens, i)),
    }
}

/// A path that parses ends after where it began, inside the input.
pub proof fn lemma_parse_path_advances(tokens: Seq<LexemeView>, i: int)
    requires
        0 <= i,
    ensures
        spec_parse_path(tokens, i) matches Ok((_, next)) ==> i < next <= tokens.len(),
        spec_parse_path_strict(tokens, i) matches Ok((_, next)) ==> i < next <= tokens.len(),
    decreases tokens.len() - i,
{
    if segment_text(token_at(tokens, i)) is Some && token_at(tokens, i + 1) == Some(TokenView::Dot)
        && segment_text(token_at(tokens, i + 2)) is Some {
        lemma_parse_path_advances(tokens, i + 2);
    }
}

/// Parses one segment at index `i`.
pub fn path_ident_at(tokens: &[Lexeme], i: usize) -> (r: Result<(Node<Path>, usize), SyntaxError>)
    ensures
        parsed_view(r) == spec_path_ident(tokens.deep_view(), i as int),
{
    match segment_string(token_ref(tokens, i)) {
        Some(text) => Ok((Node { position: tokens[i].position, node: Path::Tail(text) }, i + 1)),
        None => Err(error_here(SyntaxErrorKind::ExpectedPath, tokens, i)),
    }
}

/// Parses a path at index `i`.
pub fn parse_path_at(tokens: &[Lexeme], i: usize) -> (r: Result<(Node<Path>, usize), SyntaxError>)
    ensures
        parsed_view(r) == spec_parse_path(tokens.deep_view(), i as int),
    decreases tokens@.len() - i,
{
    let head = match segment_string(token_ref(tokens, i)) {
        Some(text) => text,
        None => {
            return Err(error_here(SyntaxErrorKind::ExpectedPath, tokens, i));
        },
    };
    let dotted = match token_ref(tokens, i + 1) {
        Some(Token::Dot) => true,
        _ => false,
    };
    if dotted {
        if segment_string(token_ref(tokens, i + 2)).is_none() {
            return Err(error_here(SyntaxErrorKind::ExpectedPathIdent, tokens, i + 2));
        }
        match parse_path_at(tokens, i + 2) {
            Ok((tail, next)) => {
                let position = tokens[i].position.combine(&tail.position);
                Ok((Node { position, node: Path::More(head, Box::new(tail)) }, next))
            },
            Err(e) => Err(e),
        }
    } else {
        Ok((Node { position: tokens[i].position, node: Path::Tail(head) }, i + 1))
    }
}

/// Appends to `out` the segments that can be read from index `i` on, joined
/// by dots.
fn push_dotted(out: &mut String, tokens: &[Lexeme], i: usize)
    ensures
        final(out)@ == old(out)@ + dotted_text(tokens.deep_view(), i as int),
    decreases tokens@.len() - i,
{
    match segment_string(token_ref(tokens, i)) {
        None => {
            assert(final(out)@ =~= old(out)@ + dotted_text(tokens.deep_view(), i as int));
        },
        Some(head) => {
            push_text(out, &head);
            let dotted = match token_ref(tokens, i + 1) {
                Some(Token::Dot) => true,
                _ => false,
            };
            if dotted && segment_string(token_ref(tokens, i + 2)).is_some() {
                out.push('.');
                push_dotted(out, tokens, i + 2);
                assert(final(out)@ =~= old(out)@ + dotted_text(tokens.deep_view(), i as int));
            } else {
                assert(final(out)@ =~= old(out)@ + dotted_text(tokens.deep_view(), i as int));
            }
        },
    }
}

/// Builds the error for a path at index `i` that begins with a literal.
fn head_error_here(tokens: &[Lexeme], i: usize) -> (e: SyntaxError)
    ensures
        e.deep_view() == head_error(tokens.deep_view(), i as int),
{
    let base = error_here(SyntaxErrorKind::PathHeadNotIdent, tokens, i);
    let mut suggestion = String::new();
    suggestion.push('"');
    push_dotted(&mut suggestion, tokens, i);
    suggestion.push('"');
    assert(suggestion@ =~= seq!['"'] + dotted_text(tokens.deep_view(), i as int) + seq!['"']);
    SyntaxError { kind: base.kind, position: base.position, culprit: base.culprit, suggestion }
}

/// Parses at index `i` a path whose first segment has to be an identifier.
pub fn parse_path_strict_at(tokens: &[Lexeme], i: usize) -> (r: Result<
    (Node<Path>, usize),
    SyntaxError,
>)
    ensures
        parsed_view(r) == spec_parse_path_strict(tokens.deep_view(), i as int),
{
    match token_ref(tokens, i) {
        Some(Token::Ident(_)) => parse_path_at(tokens, i),
        Some(Token::Str(_)) | Some(Token::Int(_)) | Some(Token::Bool(_)) => Err(
            head_error_here(tokens, i),
        ),
        _ => Err(error_here(SyntaxErrorKind::ExpectedPath, tokens, i)),
    }
}

impl Path {
    /// Parses one path segment: an identifier, a string, an integer or a
    /// boolean. Any other token is an expected-path failure, and the context
    /// stays where it was.
    pub fn path_ident(parxt: &mut Parxt<'_>) -> (r: Result<Node<Path>, SyntaxError>)
        ensures
            final(parxt).tokens == old(parxt).tokens,
            outcome(r, final(parxt).idx) == spec_path_ident(
                old(parxt).tokens.deep_view(),
                old(parxt).idx as int,
            ),
            r is Err ==> final(parxt).idx == old(parxt).idx,
    {
        match path_ident_at(parxt.tokens, parxt.idx) {
            Ok((node, next)) => {
                parxt.idx = next;
                Ok(node)
            },
            Err(e) => Err(e),
        }
    }

    /// Parses a path: a segment, and after each dot another one. A dot that
    /// no segment follows is an expected-path-identifier failure.
    pub fn parse(parxt: &mut Parxt<'_>) -> (r: Result<Node<Path>, SyntaxError>)
        ensures
            final(parxt).tokens == old(parxt).tokens,
            outcome(r, final(parxt).idx) == spec_parse_path(
                old(parxt).tokens.deep_view(),
                old(parxt).idx as int,
            ),
            r is Err ==> final(parxt).idx == old(parxt).idx,
    {
        match parse_path_at(parxt.tokens, parxt.idx) {
            Ok((node, next)) => {
                parxt.idx = next;
                Ok(node)
            },
            Err(e) => Err(e),
        }
    }

    /// Parses a path whose first segment has to be an identifier. A literal
    /// there is refused with the suggestion to write the whole path as one
    /// quoted string.
    pub fn parse_w_error(parxt: &mut Parxt<'_>) -> (r: Result<Node<Path>, SyntaxError>)
        ensures
            final(parxt).tokens == old(parxt).tokens,
            outcome(r, final(parxt).idx) == spec_parse_path_strict(
                old(parxt).tokens.deep_view(),
                old(parxt).idx as int,
            ),
            r is Err ==> final(parxt).idx == old(parxt).idx,
    {
        match parse_path_strict_at(parxt.tokens, parxt.idx) {
            Ok((node, next)) => {
                parxt.idx = next;
                Ok(node)
            },
            Err(e) => Err(e),
        }
    }
}

} // verus!
