//! The lexer: source text to positioned tokens.
use crate::errors::{char_error, plain_error, SyntaxError, SyntaxErrorKind, SyntaxErrorView};
use crate::position::Position;
use crate::token::{Lexeme, LexemeView, Token, TokenView};
use crate::views::lemma_push_deep_view;
use vstd::prelude::*;
use vstd::std_specs::iter::IteratorSpec;

verus! {

/// Space or tab.
pub open spec fn is_blank(c: char) -> bool {
    c == ' ' || c == '\t'
}

/// Space, tab or newline: skipped between tokens.
pub open spec fn is_space(c: char) -> bool {
    c == ' ' || c == '\t' || c == '\n'
}

/// A decimal digit.
pub open spec fn is_digit(c: char) -> bool {
    '0' <= c && c <= '9'
}

/// A character that may begin an identifier.
pub open spec fn is_ident_start(c: char) -> bool {
    ('a' <= c && c <= 'z') || ('A' <= c && c <= 'Z') || c == '_'
}

/// A character that may continue an identifier.
pub open spec fn is_ident_part(c: char) -> bool {
    is_ident_start(c) || is_digit(c) || c == '-'
}

/// The numeric value of a decimal digit.
pub open spec fn digit_value(c: char) -> nat {
    (c as nat - '0' as nat) as nat
}

/// The offset of the first newline at or after `j`, or the end of the text.
pub open spec fn line_end(src: Seq<char>, j: int) -> int
    decreases src.len() - j,
{
    if j >= src.len() {
        src.len() as int
    } else if src[j] == '\n' {
        j
    } else {
        line_end(src, j + 1)
    }
}

/// The offset of the first character at or after `j` that cannot continue
/// an identifier, or the end of the text.
pub open spec fn ident_end(src: Seq<char>, j: int) -> int
    decreases src.len() - j,
{
    if j >= src.len() {
        src.len() as int
    } else if !is_ident_part(src[j]) {
        j
    } else {
        ident_end(src, j + 1)
    }
}

/// The offset of the first character at or after `j` that is no digit, or the
/// end of the text.
pub open spec fn digits_end(src: Seq<char>, j: int) -> int
    decreases src.len() - j,
{
    if j >= src.len() {
        src.len() as int
    } else if !is_digit(src[j]) {
        j
    } else {
        digits_end(src, j + 1)
    }
}

/// The number that the digits `src[i..j]` write in base ten.
pub open spec fn decimal_value(src: Seq<char>, i: int, j: int) -> nat
    decreases j - i,
{
    if j <= i {
        0
    } else {
        decimal_value(src, i, j - 1) * 10 + digit_value(src[j - 1])
    }
}

/// The arguments of a shell command: the maximal runs of non-blank characters
/// of `src[j..end]`, in order, where `cur` holds the run that is being read
/// at `j`.
pub open spec fn split_args(src: Seq<char>, j: int, end: int, cur: Seq<char>) -> Seq<Seq<char>>
    decreases end - j,
{
    if j >= end {
        if cur.len() > 0 {
            seq![cur]
        } else {
            Seq::empty()
        }
    } else if is_blank(src[j]) {
        if cur.len() > 0 {
            seq![cur] + split_args(src, j + 1, end, Seq::empty())
        } else {
            split_args(src, j + 1, end, Seq::empty())
        }
    } else {
        split_args(src, j + 1, end, cur.push(src[j]))
    }
}

/// What a backslash followed by `c` stands for inside a string literal.
pub open spec fn escape_value(c: char) -> Option<char> {
    if c == 'n' {
        Some('\n')
    } else if c == 't' {
        Some('\t')
    } else if c == '\\' {
        Some('\\')
    } else if c == '"' {
        Some('"')
    } else {
        None
    }
}

/// How the body of a string literal ends.
pub ghost enum StrScan {
    /// The closing quote was found: the literal's text, and the offset after the quote.
    Closed { text: Seq<char>, next: int },
    /// The line or the text ended first.
    Open,
    /// The character `found` at offset `at` follows a backslash and is no
    /// escape. Where the text ends with the backslash, `at` is the offset of
    /// the backslash and `found` a space.
    BadEscape { found: char, at: int },
}

/// Reads the body of a string literal from offset `j`, after the characters
/// `acc` that were already read.
pub open spec fn string_scan(src: Seq<char>, j: int, acc: Seq<char>) -> StrScan
    decreases src.len() - j,
{
    if j >= src.len() || src[j] == '\n' {
        StrScan::Open
    } else if src[j] == '"' {
        StrScan::Closed { text: acc, next: j + 1 }
    } else if src[j] == '\\' {
        if j + 1 >= src.len() {
            StrScan::BadEscape { found: ' ', at: j }
        } else {
            match escape_value(src[j + 1]) {
                Some(c) => string_scan(src, j + 2, acc.push(c)),
                None => StrScan::BadEscape { found: src[j + 1], at: j + 1 },
            }
        }
    } else {
        string_scan(src, j + 1, acc.push(src[j]))
    }
}

/// The token that a bare word stands for: a reserved word or an identifier.
pub open spec fn word_token(text: Seq<char>) -> TokenView {
    if text == seq!['c', 'o', 'n', 'f', 'f'] {
        TokenView::Conff
    } else if text == seq!['v', 'a', 'r'] {
        TokenView::Var
    } else if text == seq!['t', 'r', 'u', 'e'] {
        TokenView::Bool(true)
    } else if text == seq!['f', 'a', 'l', 's', 'e'] {
        TokenView::Bool(false)
    } else {
        TokenView::Ident(text)
    }
}

/// The outcome of looking at one position of the text.
pub ghost enum Step {
    /// Nothing to emit; go on at `next`.
    Skip { next: int },
    /// A token that covers `i..next`.
    Emit { token: TokenView, next: int },
    /// The text is rejected.
    Fail { error: SyntaxErrorView },
}

/// The character after offset `i`, if there is one.
pub open spec fn peek(src: Seq<char>, i: int) -> Option<char> {
    if 0 <= i + 1 < src.len() {
        Some(src[i + 1])
    } else {
        None
    }
}

/// What the lexer does at offset `i` of `src`, by the character found there.
pub open spec fn lex_step(src: Seq<char>, i: int) -> Step
    recommends
        0 <= i < src.len(),
{
    let c = src[i];
    let after = peek(src, i);
    if is_space(c) {
        Step::Skip { next: i + 1 }
    } else if c == '.' {
        Step::Emit { token: TokenView::Dot, next: i + 1 }
    } else if c == '*' {
        Step::Emit { token: TokenView::Glob, next: i + 1 }
    } else if c == '=' {
        if after == Some('=') {
            Step::Emit { token: TokenView::EE, next: i + 2 }
        } else {
            Step::Emit { token: TokenView::Assign(true), next: i + 1 }
        }
    } else if c == ':' {
        Step::Emit { token: TokenView::Assign(false), next: i + 1 }
    } else if c == '>' {
        if after == Some('>') {
            Step::Emit { token: TokenView::Apply, next: i + 2 }
        } else if after == Some('=') {
            Step::Emit { token: TokenView::GTE, next: i + 2 }
        } else {
            Step::Emit { token: TokenView::GT, next: i + 1 }
        }
    } else if c == '<' {
        if after == Some('=') {
            Step::Emit { token: TokenView::LTE, next: i + 2 }
        } else {
            Step::Emit { token: TokenView::LT, next: i + 1 }
        }
    } else if c == '!' {
        if after == Some('=') {
            Step::Emit { token: TokenView::NE, next: i + 2 }
        } else {
            Step::Emit { token: TokenView::Not, next: i + 1 }
        }
    } else if c == '(' {
        Step::Emit { token: TokenView::LParen, next: i + 1 }
    } else if c == ')' {
        Step::Emit { token: TokenView::RParen, next: i + 1 }
    } else if c == '{' {
        Step::Emit { token: TokenView::LBrace, next: i + 1 }
    } else if c == '}' {
        Step::Emit { token: TokenView::RBrace, next: i + 1 }
    } else if c == '[' {
        Step::Emit { token: TokenView::LBracket, next: i + 1 }
    } else if c == ']' {
        Step::Emit { token: TokenView::RBracket, next: i + 1 }
    } else if c == ';' {
        Step::Emit { token: TokenView::Sep(true), next: i + 1 }
    } else if c == ',' {
        Step::Emit { token: TokenView::Sep(false), next: i + 1 }
    } else if c == '$' {
        let end = line_end(src, i + 1);
        Step::Emit { token: TokenView::Shell(split_args(src, i + 1, end, Seq::empty())), next: end }
    } else if c == '#' {
        Step::Skip { next: line_end(src, i + 1) }
    } else if c == '/' {
        if after == Some('/') {
            Step::Skip { next: line_end(src, i + 2) }
        } else {
            Step::Fail { error: char_error(SyntaxErrorKind::UnexpectedCharacter, i, i + 1, c) }
        }
    } else if is_ident_start(c) {
        let end = ident_end(src, i + 1);
        Step::Emit { token: word_token(src.subrange(i, end)), next: end }
    } else if is_digit(c) {
        let end = digits_end(src, i + 1);
        let value = decimal_value(src, i, end);
        if value <= u64::MAX {
            Step::Emit { token: TokenView::Int(value as u64), next: end }
        } else {
            Step::Fail { error: plain_error(SyntaxErrorKind::IntegerOverflow, i, end) }
        }
    } else if c == '"' {
        match string_scan(src, i + 1, Seq::empty()) {
            StrScan::Closed { text, next } => Step::Emit { token: TokenView::Str(text), next },
            StrScan::Open => Step::Fail {
                error: plain_error(SyntaxErrorKind::NonTerminatedString, i, i + 1),
            },
            StrScan::BadEscape { found, at } => Step::Fail {
                error: char_error(SyntaxErrorKind::InvalidEscape, at, at + 1, found),
            },
        }
    } else {
        Step::Fail { error: char_error(SyntaxErrorKind::UnexpectedCharacter, i, i + 1, c) }
    }
}

/// Scanning to the end of a line, of an identifier or of a digit run never
/// moves backwards nor past the end of the text.
pub proof fn lemma_scan_bounds(src: Seq<char>, j: int)
    requires
        0 <= j <= src.len(),
    ensures
        j <= line_end(src, j) <= src.len(),
        j <= ident_end(src, j) <= src.len(),
        j <= digits_end(src, j) <= src.len(),
    decreases src.len() - j,
{
    if j < src.len() {
        lemma_scan_bounds(src, j + 1);
    }
}

/// A string literal that closes does so after the offset where its body began.
pub proof fn lemma_string_scan_bounds(src: Seq<char>, j: int, acc: Seq<char>)
    requires
        0 <= j <= src.len(),
    ensures
        match string_scan(src, j, acc) {
            StrScan::Closed { text, next } => j < next <= src.len(),
            StrScan::Open => true,
            StrScan::BadEscape { found, at } => j <= at < src.len(),
        },
    decreases src.len() - j,
{
    if j < src.len() && src[j] != '\n' && src[j] != '"' {
        if src[j] == '\\' {
            if j + 1 < src.len() {
                match escape_value(src[j + 1]) {
                    Some(c) => lemma_string_scan_bounds(src, j + 2, acc.push(c)),
                    None => {},
                }
            }
        } else {
            lemma_string_scan_bounds(src, j + 1, acc.push(src[j]));
        }
    }
}

/// Every step that does not fail moves forward and stays inside the text.
pub proof fn lemma_step_advances(src: Seq<char>, i: int)
    requires
        0 <= i < src.len(),
    ensures
        match lex_step(src, i) {
            Step::Skip { next } => i < next <= src.len(),
            Step::Emit { token, next } => i < next <= src.len(),
            Step::Fail { error } => true,
        },
{
    lemma_scan_bounds(src, i + 1);
    if i + 1 < src.len() {
        lemma_scan_bounds(src, i + 2);
    }
    lemma_string_scan_bounds(src, i + 1, Seq::empty());
}

/// The tokens of `src` from offset `i` on, after the tokens `acc` that were
/// already read; or the first failure.
pub open spec fn lex_from(src: Seq<char>, i: int, acc: Seq<LexemeView>) -> Result<
    Seq<LexemeView>,
    SyntaxErrorView,
>
    decreases src.len() - i,
{
    if i < 0 || i >= src.len() {
        Ok(acc)
    } else {
        proof {
            lemma_step_advances(src, i);
        }
        match lex_step(src, i) {
            Step::Skip { next } => lex_from(src, next, acc),
            Step::Emit { token, next } => lex_from(
                src,
                next,
                acc.push(
                    LexemeView {
                        position: Position { start: i as usize, end: next as usize },
                        token,
                    },
                ),
            ),
            Step::Fail { error } => Err(error),
        }
    }
}

/// The tokens of the whole text `src`, in order, or the first failure.
pub open spec fn spec_tokenize(src: Seq<char>) -> Result<Seq<LexemeView>, SyntaxErrorView> {
    lex_from(src, 0, Seq::empty())
}

/// Whether the tokens lie one after the other inside the first `limit`
/// characters: each covers at least one character, none overlaps the next.
pub open spec fn in_order(tokens: Seq<LexemeView>, limit: int) -> bool {
    &&& forall|k: int|
        0 <= k < tokens.len() ==> (#[trigger] tokens[k]).position.start
            < tokens[k].position.end <= limit
    &&& forall|k: int, m: int|
        0 <= k < m < tokens.len() ==> (#[trigger] tokens[k]).position.end <= (
        #[trigger] tokens[m]).position.start
}

/// Lexing on from offset `i` keeps tokens in order.
pub proof fn lemma_lex_from_in_order(src: Seq<char>, i: int, acc: Seq<LexemeView>)
    requires
        0 <= i <= src.len() <= usize::MAX,
        in_order(acc, i),
    ensures
        lex_from(src, i, acc) matches Ok(tokens) ==> in_order(tokens, src.len() as int),
    decreases src.len() - i,
{
    if i < src.len() {
        lemma_step_advances(src, i);
        match lex_step(src, i) {
            Step::Skip { next } => {
                lemma_lex_from_in_order(src, next, acc);
            },
            Step::Emit { token, next } => {
                let lexeme = LexemeView {
                    position: Position { start: i as usize, end: next as usize },
                    token,
                };
                let grown = acc.push(lexeme);
                assert forall|k: int| 0 <= k < grown.len() implies (
                #[trigger] grown[k]).position.start < grown[k].position.end <= next by {
                    if k < acc.len() {
                        assert(grown[k] == acc[k]);
                    }
                }
                assert forall|k: int, m: int| 0 <= k < m < grown.len() implies (
                #[trigger] grown[k]).position.end <= (#[trigger] grown[m]).position.start by {
                    assert(grown[k] == acc[k]);
                    if m < acc.len() {
                        assert(grown[m] == acc[m]);
                    }
                }
                lemma_lex_from_in_order(src, next, grown);
            },
            Step::Fail { error } => {},
        }
    }
}

/// The tokens of a text lie one after the other inside it, in source order.
pub proof fn lemma_tokens_in_order(src: Seq<char>)
    requires
        src.len() <= usize::MAX,
    ensures
        spec_tokenize(src) matches Ok(tokens) ==> in_order(tokens, src.len() as int),
{
    lemma_lex_from_in_order(src, 0, Seq::empty());
}

/// The value of a lexing result: the tokens' values, or the error's.
pub open spec fn lexed_view(r: Result<Vec<Lexeme>, SyntaxError>) -> Result<
    Seq<LexemeView>,
    SyntaxErrorView,
> {
    match r {
        Ok(tokens) => Ok(tokens.deep_view()),
        Err(e) => Err(e.deep_view()),
    }
}

fn is_space_char(c: char) -> (b: bool)
    ensures
        b == is_space(c),
{
    c == ' ' || c == '\t' || c == '\n'
}

fn is_digit_char(c: char) -> (b: bool)
    ensures
        b == is_digit(c),
{
    '0' <= c && c <= '9'
}

fn is_ident_start_char(c: char) -> (b: bool)
    ensures
        b == is_ident_start(c),
{
    ('a' <= c && c <= 'z') || ('A' <= c && c <= 'Z') || c == '_'
}

fn is_ident_part_char(c: char) -> (b: bool)
    ensures
        b == is_ident_part(c),
{
    is_ident_start_char(c) || is_digit_char(c) || c == '-'
}

fn scan_line_end(src: &[char], j: usize) -> (end: usize)
    requires
        j <= src@.len(),
    ensures
        end == line_end(src@, j as int),
        j <= end <= src@.len(),
{
    let mut k: usize = j;
    while k < src.len() && src[k] != '\n'
        invariant
            j <= k <= src@.len(),
            line_end(src@, j as int) == line_end(src@, k as int),
        decreases src@.len() - k,
    {
        k += 1;
    }
    k
}

fn scan_ident_end(src: &[char], j: usize) -> (end: usize)
    requires
        j <= src@.len(),
    ensures
        end == ident_end(src@, j as int),
        j <= end <= src@.len(),
{
    let mut k: usize = j;
    while k < src.len() && is_ident_part_char(src[k])
        invariant
            j <= k <= src@.len(),
            ident_end(src@, j as int) == ident_end(src@, k as int),
        decreases src@.len() - k,
    {
        k += 1;
    }
    k
}

fn scan_digits_end(src: &[char], j: usize) -> (end: usize)
    requires
        j <= src@.len(),
    ensures
        end == digits_end(src@, j as int),
        j <= end <= src@.len(),
        forall|k: int| j <= k < end ==> is_digit(#[trigger] src@[k]),
{
    let mut k: usize = j;
    while k < src.len() && is_digit_char(src[k])
        invariant
            j <= k <= src@.len(),
            digits_end(src@, j as int) == digits_end(src@, k as int),
            forall|m: int| j <= m < k ==> is_digit(#[trigger] src@[m]),
        decreases src@.len() - k,
    {
        k += 1;
    }
    k
}

/// A longer run of digits writes a number at least as large.
pub proof fn lemma_decimal_value_grows(src: Seq<char>, i: int, j: int, end: int)
    requires
        i <= j <= end,
    ensures
        decimal_value(src, i, j) <= decimal_value(src, i, end),
    decreases end - j,
{
    if j < end {
        lemma_decimal_value_grows(src, i, j, end - 1);
    }
}

fn digit_of(c: char) -> (d: u64)
    requires
        is_digit(c),
    ensures
        d == digit_value(c),
        d <= 9,
{
    (c as u32 - '0' as u32) as u64
}

/// The value of the digits `src[i..end]`, if it fits in 64 bits.
fn read_decimal(src: &[char], i: usize, end: usize) -> (r: Option<u64>)
    requires
        i <= end <= src@.len(),
        forall|k: int| i <= k < end ==> is_digit(#[trigger] src@[k]),
    ensures
        match r {
            Some(v) => v == decimal_value(src@, i as int, end as int),
            None => decimal_value(src@, i as int, end as int) > u64::MAX,
        },
{
    let mut value: u64 = 0;
    let mut k: usize = i;
    while k < end
        invariant
            i <= k <= end <= src@.len(),
            forall|m: int| i <= m < end ==> is_digit(#[trigger] src@[m]),
            value == decimal_value(src@, i as int, k as int),
        decreases end - k,
    {
        let d = digit_of(src[k]);
        proof {
            lemma_decimal_value_grows(src@, i as int, k + 1, end as int);
        }
        let scaled = match value.checked_mul(10) {
            Some(x) => x,
            None => {
                return None;
            },
        };
        value = match scaled.checked_add(d) {
            Some(x) => x,
            None => {
                return None;
            },
        };
        k += 1;
    }
    Some(value)
}

/// The word `src[i..end]` as a token.
fn read_word(src: &[char], i: usize, end: usize) -> (t: Token)
    requires
        i <= end <= src@.len(),
    ensures
        t.deep_view() == word_token(src@.subrange(i as int, end as int)),
{
    let ghost text = src@.subrange(i as int, end as int);
    let n: usize = end - i;
    if n == 5 && src[i] == 'c' && src[i + 1] == 'o' && src[i + 2] == 'n' && src[i + 3] == 'f'
        && src[i + 4] == 'f' {
        assert(text =~= seq!['c', 'o', 'n', 'f', 'f']);
        return Token::Conff;
    }
    if n == 3 && src[i] == 'v' && src[i + 1] == 'a' && src[i + 2] == 'r' {
        assert(text =~= seq!['v', 'a', 'r']);
        return Token::Var;
    }
    if n == 4 && src[i] == 't' && src[i + 1] == 'r' && src[i + 2] == 'u' && src[i + 3] == 'e' {
        assert(text =~= seq!['t', 'r', 'u', 'e']);
        return Token::Bool(true);
    }
    if n == 5 && src[i] == 'f' && src[i + 1] == 'a' && src[i + 2] == 'l' && src[i + 3] == 's'
        && src[i + 4] == 'e' {
        assert(text =~= seq!['f', 'a', 'l', 's', 'e']);
        return Token::Bool(false);
    }
    proof {
        let conff = seq!['c', 'o', 'n', 'f', 'f'];
        let var = seq!['v', 'a', 'r'];
        let yes = seq!['t', 'r', 'u', 'e'];
        let no = seq!['f', 'a', 'l', 's', 'e'];
        if text == conff {
            assert(text.len() == 5 && text[0] == 'c' && text[1] == 'o' && text[2] == 'n' && text[3]
                == 'f' && text[4] == 'f');
        }
        if text == var {
            assert(text.len() == 3 && text[0] == 'v' && text[1] == 'a' && text[2] == 'r');
        }
        if text == yes {
            assert(text.len() == 4 && text[0] == 't' && text[1] == 'r' && text[2] == 'u' && text[3]
                == 'e');
        }
        if text == no {
            assert(text.len() == 5 && text[0] == 'f' && text[1] == 'a' && text[2] == 'l' && text[3]
                == 's' && text[4] == 'e');
        }
    }
    let mut word = String::new();
    let mut k: usize = i;
    while k < end
        invariant
            i <= k <= end <= src@.len(),
            word@ == src@.subrange(i as int, k as int),
        decreases end - k,
    {
        word.push(src[k]);
        k += 1;
        assert(word@ =~= src@.subrange(i as int, k as int));
    }
    Token::Ident(word)
}

/// The arguments of the shell command whose text is `src[j..end]`.
fn read_shell(src: &[char], j: usize, end: usize) -> (args: Vec<String>)
    requires
        j <= end <= src@.len(),
    ensures
        args.deep_view() == split_args(src@, j as int, end as int, Seq::empty()),
{
    let mut args: Vec<String> = Vec::new();
    let mut section = String::new();
    let mut k: usize = j;
    assert(args.deep_view() =~= Seq::<Seq<char>>::empty());
    while k < end
        invariant
            j <= k <= end <= src@.len(),
            split_args(src@, j as int, end as int, Seq::empty()) == args.deep_view() + split_args(
                src@,
                k as int,
                end as int,
                section@,
            ),
        decreases end - k,
    {
        let c = src[k];
        let ghost rest = split_args(src@, k + 1, end as int, Seq::empty());
        if c == ' ' || c == '\t' {
            if !section.as_str().is_empty() {
                let ghost before = args;
                let ghost word = section;
                args.push(section);
                proof {
                    lemma_push_deep_view(before, args, word);
                    assert(before.deep_view() + (seq![word@] + rest) =~= args.deep_view() + rest);
                }
                section = String::new();
            } else {
                assert(section@ =~= Seq::<char>::empty());
            }
        } else {
            section.push(c);
        }
        k += 1;
    }
    if !section.as_str().is_empty() {
        let ghost before = args;
        let ghost word = section;
        args.push(section);
        proof {
            lemma_push_deep_view(before, args, word);
            assert(before.deep_view() + seq![word@] =~= args.deep_view());
        }
    } else {
        assert(args.deep_view() + Seq::<Seq<char>>::empty() =~= args.deep_view());
    }
    args
}

/// The exec counterpart of [`escape_value`].
fn unescape(c: char) -> (r: Option<char>)
    ensures
        r == escape_value(c),
{
    if c == 'n' {
        Some('\n')
    } else if c == 't' {
        Some('\t')
    } else if c == '\\' {
        Some('\\')
    } else if c == '"' {
        Some('"')
    } else {
        None
    }
}

/// Reads the string literal whose opening quote is at `quote`.
fn read_string(src: &[char], quote: usize) -> (r: Result<(String, usize), SyntaxError>)
    requires
        quote < src@.len(),
    ensures
        match string_scan(src@, quote + 1, Seq::empty()) {
            StrScan::Closed { text, next } => r is Ok && r->Ok_0.0@ == text && r->Ok_0.1 == next,
            StrScan::Open => r is Err && r->Err_0.deep_view() == plain_error(
                SyntaxErrorKind::NonTerminatedString,
                quote as int,
                quote + 1,
            ),
            StrScan::BadEscape { found, at } => r is Err && r->Err_0.deep_view() == char_error(
                SyntaxErrorKind::InvalidEscape,
                at,
                at + 1,
                found,
            ),
        },
{
    let n: usize = src.len();
    let mut text = String::new();
    let mut k: usize = quote + 1;
    loop
        invariant
            n == src@.len(),
            quote < k <= n,
            string_scan(src@, quote + 1, Seq::empty()) == string_scan(src@, k as int, text@),
        decreases src@.len() - k,
    {
        proof {
            lemma_string_scan_bounds(src@, k as int, text@);
        }
        if k >= n || src[k] == '\n' {
            return Err(SyntaxError::plain(SyntaxErrorKind::NonTerminatedString, quote, quote + 1));
        }
        let c = src[k];
        if c == '"' {
            return Ok((text, k + 1));
        }
        if c == '\\' {
            if k + 1 >= n {
                return Err(SyntaxError::at_char(SyntaxErrorKind::InvalidEscape, k, k + 1, ' '));
            }
            let e = src[k + 1];
            match unescape(e) {
                Some(v) => {
                    text.push(v);
                    k += 2;
                },
                None => {
                    return Err(
                        SyntaxError::at_char(SyntaxErrorKind::InvalidEscape, k + 1, k + 2, e),
                    );
                },
            }
        } else {
            text.push(c);
            k += 1;
        }
    }
}

/// The exec counterpart of [`Step`].
enum Scanned {
    Skip(usize),
    Emit(Token, usize),
    Fail(SyntaxError),
}

impl Scanned {
    spec fn step(self) -> Step {
        match self {
            Scanned::Skip(next) => Step::Skip { next: next as int },
            Scanned::Emit(token, next) => Step::Emit { token: token.deep_view(), next: next as int },
            Scanned::Fail(error) => Step::Fail { error: error.deep_view() },
        }
    }
}

/// Looks at the character after offset `i`.
fn peek_char(src: &[char], i: usize) -> (r: Option<char>)
    requires
        i < src@.len(),
    ensures
        r == peek(src@, i as int),
{
    let n: usize = src.len();
    if i + 1 < n {
        Some(src[i + 1])
    } else {
        None
    }
}

/// Whether the character after offset `i` is `c`.
fn followed_by(src: &[char], i: usize, c: char) -> (b: bool)
    requires
        i < src@.len(),
    ensures
        b == (peek(src@, i as int) == Some(c)),
{
    match peek_char(src, i) {
        Some(d) => d == c,
        None => false,
    }
}

/// Performs one step of lexing at offset `i`.
fn lex_one(src: &[char], i: usize) -> (s: Scanned)
    requires
        i < src@.len(),
    ensures
        s.step() == lex_step(src@, i as int),
{
    let c = src[i];
    proof {
        lemma_step_advances(src@, i as int);
        lemma_scan_bounds(src@, i + 1);
    }
    if is_space_char(c) {
        Scanned::Skip(i + 1)
    } else if c == '.' {
        Scanned::Emit(Token::Dot, i + 1)
    } else if c == '*' {
        Scanned::Emit(Token::Glob, i + 1)
    } else if c == '=' {
        if followed_by(src, i, '=') {
            Scanned::Emit(Token::EE, i + 2)
        } else {
            Scanned::Emit(Token::Assign(true), i + 1)
        }
    } else if c == ':' {
        Scanned::Emit(Token::Assign(false), i + 1)
    } else if c == '>' {
        if followed_by(src, i, '>') {
            Scanned::Emit(Token::Apply, i + 2)
        } else if followed_by(src, i, '=') {
            Scanned::Emit(Token::GTE, i + 2)
        } else {
            Scanned::Emit(Token::GT, i + 1)
        }
    } else if c == '<' {
        if followed_by(src, i, '=') {
            Scanned::Emit(Token::LTE, i + 2)
        } else {
            Scanned::Emit(Token::LT, i + 1)
        }
    } else if c == '!' {
        if followed_by(src, i, '=') {
            Scanned::Emit(Token::NE, i + 2)
        } else {
            Scanned::Emit(Token::Not, i + 1)
        }
    } else if c == '(' {
        Scanned::Emit(Token::LParen, i + 1)
    } else if c == ')' {
        Scanned::Emit(Token::RParen, i + 1)
    } else if c == '{' {
        Scanned::Emit(Token::LBrace, i + 1)
    } else if c == '}' {
        Scanned::Emit(Token::RBrace, i + 1)
    } else if c == '[' {
        Scanned::Emit(Token::LBracket, i + 1)
    } else if c == ']' {
        Scanned::Emit(Token::RBracket, i + 1)
    } else if c == ';' {
        Scanned::Emit(Token::Sep(true), i + 1)
    } else if c == ',' {
        Scanned::Emit(Token::Sep(false), i + 1)
    } else if c == '$' {
        let end = scan_line_end(src, i + 1);
        let args = read_shell(src, i + 1, end);
        Scanned::Emit(Token::Shell(args), end)
    } else if c == '#' {
        Scanned::Skip(scan_line_end(src, i + 1))
    } else if c == '/' {
        if followed_by(src, i, '/') {
            Scanned::Skip(scan_line_end(src, i + 2))
        } else {
            Scanned::Fail(SyntaxError::at_char(SyntaxErrorKind::UnexpectedCharacter, i, i + 1, c))
        }
    } else if is_ident_start_char(c) {
        let end = scan_ident_end(src, i + 1);
        Scanned::Emit(read_word(src, i, end), end)
    } else if is_digit_char(c) {
        let end = scan_digits_end(src, i + 1);
        match read_decimal(src, i, end) {
            Some(value) => Scanned::Emit(Token::Int(value), end),
            None => Scanned::Fail(SyntaxError::plain(SyntaxErrorKind::IntegerOverflow, i, end)),
        }
    } else if c == '"' {
        match read_string(src, i) {
            Ok((text, next)) => Scanned::Emit(Token::Str(text), next),
            Err(e) => Scanned::Fail(e),
        }
    } else {
        Scanned::Fail(SyntaxError::at_char(SyntaxErrorKind::UnexpectedCharacter, i, i + 1, c))
    }
}

/// Splits the characters `src` into tokens.
///
/// Returns the tokens in source order, each with the range of offsets it was
/// read from, or the first failure: the result is exactly [`spec_tokenize`]
/// of the text. The ranges do not overlap and follow each other.
pub fn tokenize_chars(src: &[char]) -> (r: Result<Vec<Lexeme>, SyntaxError>)
    ensures
        lexed_view(r) == spec_tokenize(src@),
        r matches Ok(tokens) ==> in_order(tokens.deep_view(), src@.len() as int),
{
    let n: usize = src.len();
    proof {
        lemma_tokens_in_order(src@);
    }
    let mut tokens: Vec<Lexeme> = Vec::new();
    let mut i: usize = 0;
    assert(tokens.deep_view() =~= Seq::<LexemeView>::empty());
    while i < n
        invariant
            n == src@.len(),
            i <= n,
            spec_tokenize(src@) == lex_from(src@, i as int, tokens.deep_view()),
        decreases src@.len() - i,
    {
        proof {
            lemma_step_advances(src@, i as int);
        }
        match lex_one(src, i) {
            Scanned::Skip(next) => {
                i = next;
            },
            Scanned::Emit(token, next) => {
                let lexeme = Lexeme { position: Position { start: i, end: next }, token };
                let ghost before = tokens;
                let ghost item = lexeme;
                tokens.push(lexeme);
                proof {
                    lemma_push_deep_view(before, tokens, item);
                }
                i = next;
            },
            Scanned::Fail(error) => {
                return Err(error);
            },
        }
    }
    Ok(tokens)
}

/// The characters of `s`, in order.
pub fn chars_of(s: &str) -> (v: Vec<char>)
    ensures
        v@ == s@,
{
    let mut v: Vec<char> = Vec::new();
    let mut it = s.chars();
    let ghost mut done: Seq<char> = Seq::empty();
    loop
        invariant
            done + it.remaining() == s@,
            v@ == done,
            it.obeys_prophetic_iter_laws(),
            it.decrease() is Some,
        decreases it.decrease()->0,
    {
        broadcast use vstd::string::group_string_axioms;

        match it.next() {
            Some(c) => {
                v.push(c);
                proof {
                    done = done.push(c);
                    assert(done + it.remaining() =~= s@);
                }
            },
            None => {
                assert(done =~= s@);
                return v;
            },
        }
    }
}

impl Token {
    /// Splits the script `src` into tokens.
    ///
    /// Whitespace and comments (`// ...` and `# ...`, to the end of the line)
    /// produce nothing. The result is exactly [`spec_tokenize`] of the text:
    /// all its tokens in source order, or the first failure.
    pub fn tokenize(src: &str) -> (r: Result<Vec<Lexeme>, SyntaxError>)
        ensures
            lexed_view(r) == spec_tokenize(src@),
            r matches Ok(tokens) ==> in_order(tokens.deep_view(), src@.len() as int),
    {
        let chars = chars_of(src);
        tokenize_chars(chars.as_slice())
    }
}

} // verus!
