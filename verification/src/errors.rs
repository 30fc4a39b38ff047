//! Failures of lexing, parsing and scope resolution.
use crate::position::Position;
use crate::text::push_text;
use crate::token::{token_text, Token, TokenView};
use vstd::prelude::*;

verus! {

/// What went wrong.
#[derive(Debug, Clone, Copy, PartialEq, Eq, Hash, Structural)]
pub enum SyntaxErrorKind {
    /// A character that starts no token.
    UnexpectedCharacter,
    /// A string literal whose closing quote is missing from its line.
    NonTerminatedString,
    /// A backslash in a string literal followed by anything but `n`, `t`, `\` or `"`.
    InvalidEscape,
    /// An integer literal that does not fit in 64 bits.
    IntegerOverflow,
    /// No atom starts at this token.
    ExpectedAtom,
    /// No path starts at this token.
    ExpectedPath,
    /// A dot is not followed by a path segment.
    ExpectedPathIdent,
    /// No statement starts at this token.
    ExpectedStmt,
    /// A statement's path is not followed by `:` or `=`.
    ExpectedAssign,
    /// A path begins with a literal instead of an identifier.
    PathHeadNotIdent,
    /// A table does not begin with `{`.
    ExpectedTable,
    /// A table's statements are not followed by `}`.
    ExpectedTableClose,
    /// A list does not begin with `[`.
    ExpectedList,
    /// A list's atoms are not followed by `]`.
    ExpectedListClose,
    /// An expression does not begin with `(`.
    ExpectedExpr,
    /// An expression's `(` is never closed.
    ExpectedExprClose,
    /// An expression was found where a value has to be resolved; expressions
    /// have no meaning yet.
    UnsupportedExpr,
    /// An entry holds a path with no segment or with an empty segment.
    EmptyPathSegment,
}

/// The character or token that an error points at.
#[derive(Debug, Clone, PartialEq, Eq)]
pub enum Culprit {
    /// The error names no culprit.
    Nothing,
    /// The offending character.
    Char(char),
    /// The offending token.
    Token(Token),
    /// The input ended where more was expected.
    EndOfInput,
}

/// The mathematical value of a [`Culprit`].
pub ghost enum CulpritView {
    Nothing,
    Char(char),
    Token(TokenView),
    EndOfInput,
}

impl DeepView for Culprit {
    type V = CulpritView;

    open spec fn deep_view(&self) -> CulpritView {
        match *self {
            Culprit::Nothing => CulpritView::Nothing,
            Culprit::Char(c) => CulpritView::Char(c),
            Culprit::Token(t) => CulpritView::Token(t.deep_view()),
            Culprit::EndOfInput => CulpritView::EndOfInput,
        }
    }
}

/// A positioned failure. The first one met aborts the whole run.
#[derive(Debug, Clone, PartialEq, Eq)]
pub struct SyntaxError {
    pub kind: SyntaxErrorKind,
    pub position: Position,
    pub culprit: Culprit,
    /// For [`SyntaxErrorKind::PathHeadNotIdent`], the quoted text to write
    /// instead; empty for every other kind.
    pub suggestion: String,
}

/// The mathematical value of a [`SyntaxError`].
pub ghost struct SyntaxErrorView {
    pub kind: SyntaxErrorKind,
    pub position: Position,
    pub culprit: CulpritView,
    pub suggestion: Seq<char>,
}

impl DeepView for SyntaxError {
    type V = SyntaxErrorView;

    open spec fn deep_view(&self) -> SyntaxErrorView {
        SyntaxErrorView {
            kind: self.kind,
            position: self.position,
            culprit: self.culprit.deep_view(),
            suggestion: self.suggestion@,
        }
    }
}

/// The error of the given kind at `start..end` that blames the character `found`.
pub open spec fn char_error(
    kind: SyntaxErrorKind,
    start: int,
    end: int,
    found: char,
) -> SyntaxErrorView {
    SyntaxErrorView {
        kind,
        position: Position { start: start as usize, end: end as usize },
        culprit: CulpritView::Char(found),
        suggestion: Seq::empty(),
    }
}

/// The error of the given kind at `start..end` that blames nothing in particular.
pub open spec fn plain_error(kind: SyntaxErrorKind, start: int, end: int) -> SyntaxErrorView {
    SyntaxErrorView {
        kind,
        position: Position { start: start as usize, end: end as usize },
        culprit: CulpritView::Nothing,
        suggestion: Seq::empty(),
    }
}

impl SyntaxError {
    /// Builds the error of the given kind at `start..end` that blames the character `found`.
    pub fn at_char(kind: SyntaxErrorKind, start: usize, end: usize, found: char) -> (e: SyntaxError)
        ensures
            e.deep_view() == char_error(kind, start as int, end as int, found),
    {
        SyntaxError {
            kind,
            position: Position { start, end },
            culprit: Culprit::Char(found),
            suggestion: String::new(),
        }
    }

    /// Builds the error of the given kind at `start..end` that blames nothing in particular.
    pub fn plain(kind: SyntaxErrorKind, start: usize, end: usize) -> (e: SyntaxError)
        ensures
            e.deep_view() == plain_error(kind, start as int, end as int),
    {
        SyntaxError {
            kind,
            position: Position { start, end },
            culprit: Culprit::Nothing,
            suggestion: String::new(),
        }
    }
}

/// The code of each kind of error.
pub open spec fn spec_code(kind: SyntaxErrorKind) -> Seq<char> {
    match kind {
        SyntaxErrorKind::UnexpectedCharacter => "SY001"@,
        SyntaxErrorKind::NonTerminatedString => "SY002"@,
        SyntaxErrorKind::InvalidEscape => "SY003"@,
        SyntaxErrorKind::ExpectedAtom => "SY004"@,
        SyntaxErrorKind::ExpectedPath => "SY005"@,
        SyntaxErrorKind::ExpectedPathIdent => "SY006"@,
        SyntaxErrorKind::ExpectedStmt => "SY007"@,
        SyntaxErrorKind::ExpectedAssign => "SY008"@,
        SyntaxErrorKind::PathHeadNotIdent => "SY009"@,
        SyntaxErrorKind::IntegerOverflow => "SY010"@,
        SyntaxErrorKind::ExpectedList => "SY011"@,
        SyntaxErrorKind::ExpectedListClose => "SY012"@,
        SyntaxErrorKind::ExpectedTable => "SY013"@,
        SyntaxErrorKind::ExpectedTableClose => "SY014"@,
        SyntaxErrorKind::ExpectedExpr => "SY015"@,
        SyntaxErrorKind::ExpectedExprClose => "SY016"@,
        SyntaxErrorKind::UnsupportedExpr => "SY017"@,
        SyntaxErrorKind::EmptyPathSegment => "SY018"@,
    }
}

/// The short name of each kind of error.
pub open spec fn spec_title(kind: SyntaxErrorKind) -> Seq<char> {
    match kind {
        SyntaxErrorKind::UnexpectedCharacter => "unexpected character"@,
        SyntaxErrorKind::NonTerminatedString => "non-terminated string"@,
        SyntaxErrorKind::InvalidEscape => "invalid escape character"@,
        SyntaxErrorKind::ExpectedAtom => "expected atom"@,
        SyntaxErrorKind::ExpectedPath => "expected path"@,
        SyntaxErrorKind::ExpectedPathIdent => "expected path-identifier after dot"@,
        SyntaxErrorKind::ExpectedStmt => "expected stmt"@,
        SyntaxErrorKind::ExpectedAssign => "expected assignment operator"@,
        SyntaxErrorKind::PathHeadNotIdent => "all paths must begin with identifier"@,
        SyntaxErrorKind::IntegerOverflow => "integer too large"@,
        SyntaxErrorKind::ExpectedList => "expected list"@,
        SyntaxErrorKind::ExpectedListClose => "expected closing bracket"@,
        SyntaxErrorKind::ExpectedTable => "expected table"@,
        SyntaxErrorKind::ExpectedTableClose => "expected closing brace"@,
        SyntaxErrorKind::ExpectedExpr => "expected expression"@,
        SyntaxErrorKind::ExpectedExprClose => "expected closing parenthesis"@,
        SyntaxErrorKind::UnsupportedExpr => "expressions are not yet supported"@,
        SyntaxErrorKind::EmptyPathSegment => "empty path segment"@,
    }
}

/// How the culprit of an error is shown in its message.
pub open spec fn culprit_text(culprit: CulpritView) -> Seq<char> {
    match culprit {
        CulpritView::Nothing => Seq::empty(),
        CulpritView::Char(c) => seq![c],
        CulpritView::Token(t) => token_text(t),
        CulpritView::EndOfInput => "end of input"@,
    }
}

/// `before`, then how the culprit is shown, then `after`.
pub open spec fn around(before: Seq<char>, culprit: CulpritView, after: Seq<char>) -> Seq<char> {
    before + culprit_text(culprit) + after
}

/// The message of an error.
pub open spec fn spec_message(error: SyntaxErrorView) -> Seq<char> {
    match error.kind {
        SyntaxErrorKind::UnexpectedCharacter => around(
            "character `"@,
            error.culprit,
            "` is unexpected"@,
        ),
        SyntaxErrorKind::NonTerminatedString => "expected `\"` to terminate string"@,
        SyntaxErrorKind::InvalidEscape => around(
            "escape character `"@,
            error.culprit,
            "` is invalid"@,
        ),
        SyntaxErrorKind::ExpectedAtom => around("expected atom, found `"@, error.culprit, "`"@),
        SyntaxErrorKind::ExpectedPath => around("expected path, found `"@, error.culprit, "`"@),
        SyntaxErrorKind::ExpectedPathIdent => around(
            "expected path-ident, found `"@,
            error.culprit,
            "`"@,
        ),
        SyntaxErrorKind::ExpectedStmt => around("expected stmt, found `"@, error.culprit, "`"@),
        SyntaxErrorKind::ExpectedAssign => around(
            "expected `:` or `=`, found `"@,
            error.culprit,
            "`"@,
        ),
        SyntaxErrorKind::PathHeadNotIdent => "try using `"@ + error.suggestion + around(
            "` instead of `"@,
            error.culprit,
            "`"@,
        ),
        SyntaxErrorKind::IntegerOverflow => "integer does not fit in 64 bits"@,
        SyntaxErrorKind::ExpectedList => around("expected `[`, found `"@, error.culprit, "`"@),
        SyntaxErrorKind::ExpectedListClose => around(
            "expected `]`, found `"@,
            error.culprit,
            "`"@,
        ),
        SyntaxErrorKind::ExpectedTable => around("expected `{`, found `"@, error.culprit, "`"@),
        SyntaxErrorKind::ExpectedTableClose => around(
            "expected `}`, found `"@,
            error.culprit,
            "`"@,
        ),
        SyntaxErrorKind::ExpectedExpr => around("expected `(`, found `"@, error.culprit, "`"@),
        SyntaxErrorKind::ExpectedExprClose => "expected `)` to close expression"@,
        SyntaxErrorKind::UnsupportedExpr => "expressions cannot be resolved yet"@,
        SyntaxErrorKind::EmptyPathSegment => "a path needs segments, none of them empty"@,
    }
}

impl SyntaxErrorKind {
    /// The code of this kind of error.
    pub fn code(&self) -> (s: &'static str)
        ensures
            s@ == spec_code(*self),
    {
        match self {
            SyntaxErrorKind::UnexpectedCharacter => "SY001",
            SyntaxErrorKind::NonTerminatedString => "SY002",
            SyntaxErrorKind::InvalidEscape => "SY003",
            SyntaxErrorKind::ExpectedAtom => "SY004",
            SyntaxErrorKind::ExpectedPath => "SY005",
            SyntaxErrorKind::ExpectedPathIdent => "SY006",
            SyntaxErrorKind::ExpectedStmt => "SY007",
            SyntaxErrorKind::ExpectedAssign => "SY008",
            SyntaxErrorKind::PathHeadNotIdent => "SY009",
            SyntaxErrorKind::IntegerOverflow => "SY010",
            SyntaxErrorKind::ExpectedList => "SY011",
            SyntaxErrorKind::ExpectedListClose => "SY012",
            SyntaxErrorKind::ExpectedTable => "SY013",
            SyntaxErrorKind::ExpectedTableClose => "SY014",
            SyntaxErrorKind::ExpectedExpr => "SY015",
            SyntaxErrorKind::ExpectedExprClose => "SY016",
            SyntaxErrorKind::UnsupportedExpr => "SY017",
            SyntaxErrorKind::EmptyPathSegment => "SY018",
        }
    }

    /// The short name of this kind of error.
    pub fn title(&self) -> (s: &'static str)
        ensures
            s@ == spec_title(*self),
    {
        match self {
            SyntaxErrorKind::UnexpectedCharacter => "unexpected character",
            SyntaxErrorKind::NonTerminatedString => "non-terminated string",
            SyntaxErrorKind::InvalidEscape => "invalid escape character",
            SyntaxErrorKind::ExpectedAtom => "expected atom",
            SyntaxErrorKind::ExpectedPath => "expected path",
            SyntaxErrorKind::ExpectedPathIdent => "expected path-identifier after dot",
            SyntaxErrorKind::ExpectedStmt => "expected stmt",
            SyntaxErrorKind::ExpectedAssign => "expected assignment operator",
            SyntaxErrorKind::PathHeadNotIdent => "all paths must begin with identifier",
            SyntaxErrorKind::IntegerOverflow => "integer too large",
            SyntaxErrorKind::ExpectedList => "expected list",
            SyntaxErrorKind::ExpectedListClose => "expected closing bracket",
            SyntaxErrorKind::ExpectedTable => "expected table",
            SyntaxErrorKind::ExpectedTableClose => "expected closing brace",
            SyntaxErrorKind::ExpectedExpr => "expected expression",
            SyntaxErrorKind::ExpectedExprClose => "expected closing parenthesis",
            SyntaxErrorKind::UnsupportedExpr => "expressions are not yet supported",
            SyntaxErrorKind::EmptyPathSegment => "empty path segment",
        }
    }
}

impl Culprit {
    /// How this culprit is shown in a message.
    pub fn text(&self) -> (s: String)
        ensures
            s@ == culprit_text(self.deep_view()),
    {
        match self {
            Culprit::Nothing => String::new(),
            Culprit::Char(c) => {
                let mut s = String::new();
                s.push(*c);
                assert(s@ =~= seq![*c]);
                s
            },
            Culprit::Token(t) => t.text(),
            Culprit::EndOfInput => String::from_str("end of input"),
        }
    }
}

impl SyntaxError {
    /// `before`, then the culprit, then `after`.
    fn wrap(&self, before: &str, after: &str) -> (s: String)
        ensures
            s@ == around(before@, self.deep_view().culprit, after@),
    {
        let mut s = String::from_str(before);
        let shown = self.culprit.text();
        push_text(&mut s, &shown);
        s.append(after);
        s
    }

    /// The message of this error, with its culprit and its suggestion
    /// written in.
    pub fn message(&self) -> (s: String)
        ensures
            s@ == spec_message(self.deep_view()),
    {
        match self.kind {
            SyntaxErrorKind::UnexpectedCharacter => self.wrap("character `", "` is unexpected"),
            SyntaxErrorKind::NonTerminatedString => String::from_str(
                "expected `\"` to terminate string",
            ),
            SyntaxErrorKind::InvalidEscape => self.wrap("escape character `", "` is invalid"),
            SyntaxErrorKind::ExpectedAtom => self.wrap("expected atom, found `", "`"),
            SyntaxErrorKind::ExpectedPath => self.wrap("expected path, found `", "`"),
            SyntaxErrorKind::ExpectedPathIdent => self.wrap("expected path-ident, found `", "`"),
            SyntaxErrorKind::ExpectedStmt => self.wrap("expected stmt, found `", "`"),
            SyntaxErrorKind::ExpectedAssign => self.wrap("expected `:` or `=`, found `", "`"),
            SyntaxErrorKind::PathHeadNotIdent => {
                let mut s = String::from_str("try using `");
                push_text(&mut s, &self.suggestion);
                let rest = self.wrap("` instead of `", "`");
                push_text(&mut s, &rest);
                s
            },
            SyntaxErrorKind::IntegerOverflow => String::from_str("integer does not fit in 64 bits"),
            SyntaxErrorKind::ExpectedList => self.wrap("expected `[`, found `", "`"),
            SyntaxErrorKind::ExpectedListClose => self.wrap("expected `]`, found `", "`"),
            SyntaxErrorKind::ExpectedTable => self.wrap("expected `{`, found `", "`"),
            SyntaxErrorKind::ExpectedTableClose => self.wrap("expected `}`, found `", "`"),
            SyntaxErrorKind::ExpectedExpr => self.wrap("expected `(`, found `", "`"),
            SyntaxErrorKind::ExpectedExprClose => String::from_str(
                "expected `)` to close expression",
            ),
            SyntaxErrorKind::UnsupportedExpr => String::from_str(
                "expressions cannot be resolved yet",
            ),
            SyntaxErrorKind::EmptyPathSegment => String::from_str(
                "a path needs segments, none of them empty",
            ),
        }
    }
}


/// A failure outside the script itself.
#[derive(Debug, Clone, PartialEq, Eq)]
pub enum RuntimeError {
    /// The file at `path` could not be read.
    FileRead { path: String },
}

/// The mathematical value of a [`RuntimeError`].
pub ghost enum RuntimeErrorView {
    FileRead { path: Seq<char> },
}

impl DeepView for RuntimeError {
    type V = RuntimeErrorView;

    open spec fn deep_view(&self) -> RuntimeErrorView {
        match *self {
            RuntimeError::FileRead { path } => RuntimeErrorView::FileRead { path: path@ },
        }
    }
}

/// The message of a runtime error: it names the path that was tried.
pub open spec fn spec_runtime_message(error: RuntimeErrorView) -> Seq<char> {
    match error {
        RuntimeErrorView::FileRead { path } => "cannot read file `"@ + path + "`"@,
    }
}

impl RuntimeError {
    /// The code of this kind of error.
    pub fn code(&self) -> (s: &'static str)
        ensures
            s@ == "RT010"@,
    {
        match self {
            RuntimeError::FileRead { .. } => "RT010",
        }
    }

    /// The short name of this kind of error.
    pub fn title(&self) -> (s: &'static str)
        ensures
            s@ == "file read failure"@,
    {
        match self {
            RuntimeError::FileRead { .. } => "file read failure",
        }
    }

    /// The message of this error, with the path written in.
    pub fn message(&self) -> (s: String)
        ensures
            s@ == spec_runtime_message(self.deep_view()),
    {
        match self {
            RuntimeError::FileRead { path } => {
                let mut s = String::from_str("cannot read file `");
                push_text(&mut s, path);
                s.append("`");
                s
            },
        }
    }
}

} // verus!
