//! Tokens of the configuration language.
use crate::position::Position;
use crate::text::{bool_string, bool_text, decimal_string, decimal_text};
use vstd::prelude::*;

verus! {

/// One lexical unit of a script.
#[derive(Debug, Clone, PartialEq, Eq)]
pub enum Token {
    /// `>>`
    Apply,
    /// `.`
    Dot,
    /// `!`
    Not,
    /// `==`
    EE,
    /// `!=`
    NE,
    /// `>=`
    GTE,
    /// `>`
    GT,
    /// `<=`
    LTE,
    /// `<`
    LT,
    /// `*`
    Glob,
    /// `$ ...` up to the end of the line, split into arguments.
    Shell(Vec<String>),
    /// `=` (true) or `:` (false).
    Assign(bool),
    /// `;` (true) or `,` (false).
    Sep(bool),
    /// `(`
    LParen,
    /// `)`
    RParen,
    /// `{`
    LBrace,
    /// `}`
    RBrace,
    /// `[`
    LBracket,
    /// `]`
    RBracket,
    /// `true` or `false`.
    Bool(bool),
    /// The reserved word `conff`.
    Conff,
    /// The reserved word `var`.
    Var,
    /// A bare word that is not reserved.
    Ident(String),
    /// A double-quoted string, with its escapes resolved.
    Str(String),
    /// A decimal integer.
    Int(u64),
    /// A verbatim literal. The lexer never produces one; a host may splice it
    /// into a token sequence that it hands to the parser.
    RawConf(String),
}

/// The mathematical value of a [`Token`].
pub ghost enum TokenView {
    Apply,
    Dot,
    Not,
    EE,
    NE,
    GTE,
    GT,
    LTE,
    LT,
    Glob,
    Shell(Seq<Seq<char>>),
    Assign(bool),
    Sep(bool),
    LParen,
    RParen,
    LBrace,
    RBrace,
    LBracket,
    RBracket,
    Bool(bool),
    Conff,
    Var,
    Ident(Seq<char>),
    Str(Seq<char>),
    Int(u64),
    RawConf(Seq<char>),
}

impl DeepView for Token {
    type V = TokenView;

    open spec fn deep_view(&self) -> TokenView {
        match *self {
            Token::Apply => TokenView::Apply,
            Token::Dot => TokenView::Dot,
            Token::Not => TokenView::Not,
            Token::EE => TokenView::EE,
            Token::NE => TokenView::NE,
            Token::GTE => TokenView::GTE,
            Token::GT => TokenView::GT,
            Token::LTE => TokenView::LTE,
            Token::LT => TokenView::LT,
            Token::Glob => TokenView::Glob,
            Token::Shell(args) => TokenView::Shell(args.deep_view()),
            Token::Assign(is_eq) => TokenView::Assign(is_eq),
            Token::Sep(is_semi) => TokenView::Sep(is_semi),
            Token::LParen => TokenView::LParen,
            Token::RParen => TokenView::RParen,
            Token::LBrace => TokenView::LBrace,
            Token::RBrace => TokenView::RBrace,
            Token::LBracket => TokenView::LBracket,
            Token::RBracket => TokenView::RBracket,
            Token::Bool(b) => TokenView::Bool(b),
            Token::Conff => TokenView::Conff,
            Token::Var => TokenView::Var,
            Token::Ident(s) => TokenView::Ident(s@),
            Token::Str(s) => TokenView::Str(s@),
            Token::Int(n) => TokenView::Int(n),
            Token::RawConf(s) => TokenView::RawConf(s@),
        }
    }
}

/// A token together with the range of source text that it was read from.
#[derive(Debug, Clone, PartialEq, Eq)]
pub struct Lexeme {
    pub position: Position,
    pub token: Token,
}

/// The mathematical value of a [`Lexeme`].
pub ghost struct LexemeView {
    pub position: Position,
    pub token: TokenView,
}

impl DeepView for Lexeme {
    type V = LexemeView;

    open spec fn deep_view(&self) -> LexemeView {
        LexemeView { position: self.position, token: self.token.deep_view() }
    }
}

/// A copy of the strings `items`.
pub fn copy_strings(items: &Vec<String>) -> (out: Vec<String>)
    ensures
        out.deep_view() == items.deep_view(),
{
    let mut out: Vec<String> = Vec::new();
    let mut i: usize = 0;
    while i < items.len()
        invariant
            i <= items.len(),
            out.len() == i,
            forall|k: int| 0 <= k < i ==> (#[trigger] out[k])@ == items[k]@,
        decreases items.len() - i,
    {
        out.push(items[i].clone());
        i += 1;
    }
    assert(out.deep_view() =~= items.deep_view());
    out
}

impl Token {
    /// A copy of this token.
    pub fn copy(&self) -> (t: Token)
        ensures
            t.deep_view() == self.deep_view(),
    {
        match self {
            Token::Apply => Token::Apply,
            Token::Dot => Token::Dot,
            Token::Not => Token::Not,
            Token::EE => Token::EE,
            Token::NE => Token::NE,
            Token::GTE => Token::GTE,
            Token::GT => Token::GT,
            Token::LTE => Token::LTE,
            Token::LT => Token::LT,
            Token::Glob => Token::Glob,
            Token::Shell(args) => Token::Shell(copy_strings(args)),
            Token::Assign(is_eq) => Token::Assign(*is_eq),
            Token::Sep(is_semi) => Token::Sep(*is_semi),
            Token::LParen => Token::LParen,
            Token::RParen => Token::RParen,
            Token::LBrace => Token::LBrace,
            Token::RBrace => Token::RBrace,
            Token::LBracket => Token::LBracket,
            Token::RBracket => Token::RBracket,
            Token::Bool(b) => Token::Bool(*b),
            Token::Conff => Token::Conff,
            Token::Var => Token::Var,
            Token::Ident(s) => Token::Ident(s.clone()),
            Token::Str(s) => Token::Str(s.clone()),
            Token::Int(n) => Token::Int(*n),
            Token::RawConf(s) => Token::RawConf(s.clone()),
        }
    }
}

impl Lexeme {
    /// A copy of this token and its position.
    pub fn copy(&self) -> (l: Lexeme)
        ensures
            l.deep_view() == self.deep_view(),
    {
        Lexeme { position: self.position, token: self.token.copy() }
    }
}

/// How a character of a string literal is written between the quotes.
pub open spec fn escape_of(c: char) -> Seq<char> {
    if c == '\n' {
        seq!['\\', 'n']
    } else if c == '\t' {
        seq!['\\', 't']
    } else if c == '\\' {
        seq!['\\', '\\']
    } else if c == '"' {
        seq!['\\', '"']
    } else {
        seq![c]
    }
}

/// The first `n` characters of `text`, each written as between quotes.
pub open spec fn escaped(text: Seq<char>, n: nat) -> Seq<char>
    decreases n,
{
    if n == 0 || n > text.len() {
        Seq::empty()
    } else {
        escaped(text, (n - 1) as nat) + escape_of(text[n - 1])
    }
}

/// `text` as a string literal: quoted, with its escapes.
pub open spec fn quoted(text: Seq<char>) -> Seq<char> {
    seq!['"'] + escaped(text, text.len()) + seq!['"']
}

/// How a token is shown in a message.
pub open spec fn token_text(token: TokenView) -> Seq<char> {
    match token {
        TokenView::Apply => ">>"@,
        TokenView::Dot => "."@,
        TokenView::Not => "!"@,
        TokenView::EE => "=="@,
        TokenView::NE => "!="@,
        TokenView::GTE => ">="@,
        TokenView::GT => ">"@,
        TokenView::LTE => "<="@,
        TokenView::LT => "<"@,
        TokenView::Glob => "*"@,
        TokenView::Shell(_) => "<shell command>"@,
        TokenView::Assign(is_eq) => if is_eq {
            "="@
        } else {
            ":"@
        },
        TokenView::Sep(is_semi) => if is_semi {
            ";"@
        } else {
            ","@
        },
        TokenView::LParen => "("@,
        TokenView::RParen => ")"@,
        TokenView::LBrace => "{"@,
        TokenView::RBrace => "}"@,
        TokenView::LBracket => "["@,
        TokenView::RBracket => "]"@,
        TokenView::Bool(b) => bool_text(b),
        TokenView::Conff => "conff"@,
        TokenView::Var => "var"@,
        TokenView::Ident(x) => x,
        TokenView::Str(x) => quoted(x),
        TokenView::Int(n) => decimal_text(n as nat),
        TokenView::RawConf(x) => x,
    }
}

/// `text` as a string literal.
pub fn quote(text: &String) -> (s: String)
    ensures
        s@ == quoted(text@),
{
    let chars = crate::lexer::chars_of(text.as_str());
    let mut s = String::new();
    s.push('"');
    let mut i: usize = 0;
    assert(s@ =~= seq!['"'] + escaped(text@, 0));
    while i < chars.len()
        invariant
            i <= chars@.len(),
            chars@ == text@,
            s@ == seq!['"'] + escaped(text@, i as nat),
        decreases chars@.len() - i,
    {
        let c = chars[i];
        if c == '\n' {
            s.push('\\');
            s.push('n');
        } else if c == '\t' {
            s.push('\\');
            s.push('t');
        } else if c == '\\' {
            s.push('\\');
            s.push('\\');
        } else if c == '"' {
            s.push('\\');
            s.push('"');
        } else {
            s.push(c);
        }
        i += 1;
        assert(s@ =~= seq!['"'] + escaped(text@, i as nat));
    }
    s.push('"');
    assert(s@ =~= quoted(text@));
    s
}

impl Token {
    /// How this token is shown in a message: operators and punctuation as
    /// they are written, words as they are, strings quoted, integers in
    /// decimal.
    pub fn text(&self) -> (s: String)
        ensures
            s@ == token_text(self.deep_view()),
    {
        match self {
            Token::Apply => String::from_str(">>"),
            Token::Dot => String::from_str("."),
            Token::Not => String::from_str("!"),
            Token::EE => String::from_str("=="),
            Token::NE => String::from_str("!="),
            Token::GTE => String::from_str(">="),
            Token::GT => String::from_str(">"),
            Token::LTE => String::from_str("<="),
            Token::LT => String::from_str("<"),
            Token::Glob => String::from_str("*"),
            Token::Shell(_) => String::from_str("<shell command>"),
            Token::Assign(is_eq) => if *is_eq {
                String::from_str("=")
            } else {
                String::from_str(":")
            },
            Token::Sep(is_semi) => if *is_semi {
                String::from_str(";")
            } else {
                String::from_str(",")
            },
            Token::LParen => String::from_str("("),
            Token::RParen => String::from_str(")"),
            Token::LBrace => String::from_str("{"),
            Token::RBrace => String::from_str("}"),
            Token::LBracket => String::from_str("["),
            Token::RBracket => String::from_str("]"),
            Token::Bool(b) => bool_string(*b),
            Token::Conff => String::from_str("conff"),
            Token::Var => String::from_str("var"),
            Token::Ident(x) => x.clone(),
            Token::Str(x) => quote(x),
            Token::Int(n) => decimal_string(*n),
            Token::RawConf(x) => x.clone(),
        }
    }
}

} // verus!
