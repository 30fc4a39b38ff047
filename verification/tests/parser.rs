use onefig::errors::{Culprit, SyntaxError, SyntaxErrorKind};
use onefig::nodes::atom::Atom;
use onefig::nodes::expr::Expr;
use onefig::nodes::list::List;
use onefig::nodes::node::Node;
use onefig::nodes::path::Path;
use onefig::nodes::source_file::SourceFile;
use onefig::nodes::stmt::Stmt;
use onefig::nodes::table::Table;
use onefig::parxt::Parxt;
use onefig::position::Position;
use onefig::token::{Lexeme, Token};
use onefig::visitor::Segment;

fn lex(src: &str) -> Vec<Lexeme> {
    Token::tokenize(src).unwrap()
}

fn pos(start: usize, end: usize) -> Position {
    Position { start, end }
}

fn parse_err(src: &str) -> SyntaxError {
    SourceFile::parse(&lex(src)).unwrap_err()
}

#[test]
fn head_of_a_path_is_its_first_segment() {
    let tail = Path::Tail("only".to_string());
    assert_eq!(tail.get_head(), "only");
    let more = Path::More(
        "first".to_string(),
        Box::new(Node { position: pos(6, 12), node: Path::Tail("second".to_string()) }),
    );
    assert_eq!(more.get_head(), "first");
}

#[test]
fn lenient_path_accepts_literal_segments() {
    let tokens = lex("\"a b\".7.true.id rest");
    let mut parxt = Parxt::new(&tokens);
    let path = Path::parse(&mut parxt).unwrap();
    assert_eq!(parxt.idx, 7);
    assert_eq!(path.position, pos(0, 15));
    let names: Vec<String> = Path::flatten(&path).into_iter().map(|s| s.name).collect();
    assert_eq!(names, vec!["a b", "7", "true", "id"]);
}

#[test]
fn flattened_segments_keep_their_positions() {
    let tokens = lex("ab.cd.e");
    let mut parxt = Parxt::new(&tokens);
    let path = Path::parse(&mut parxt).unwrap();
    assert_eq!(
        Path::flatten(&path),
        vec![
            Segment { position: pos(0, 7), name: "ab".to_string() },
            Segment { position: pos(3, 7), name: "cd".to_string() },
            Segment { position: pos(6, 7), name: "e".to_string() },
        ]
    );
}

#[test]
fn path_ident_takes_one_segment() {
    let tokens = lex("a.b");
    let mut parxt = Parxt::new(&tokens);
    let node = Path::path_ident(&mut parxt).unwrap();
    assert_eq!(node, Node { position: pos(0, 1), node: Path::Tail("a".to_string()) });
    assert_eq!(parxt.idx, 1);
    let err = Path::path_ident(&mut parxt).unwrap_err();
    assert_eq!(err.kind, SyntaxErrorKind::ExpectedPath);
    assert_eq!(err.culprit, Culprit::Token(Token::Dot));
    assert_eq!(parxt.idx, 1);
}

#[test]
fn dot_needs_a_segment_after_it() {
    let tokens = lex("a.{");
    let mut parxt = Parxt::new(&tokens);
    let err = Path::parse(&mut parxt).unwrap_err();
    assert_eq!(err.kind, SyntaxErrorKind::ExpectedPathIdent);
    assert_eq!(err.position, pos(2, 3));
    assert_eq!(err.culprit, Culprit::Token(Token::LBrace));
    assert_eq!(parxt.idx, 0);
    let tokens = lex("a.");
    let err = Path::parse(&mut Parxt::new(&tokens)).unwrap_err();
    assert_eq!(err.kind, SyntaxErrorKind::ExpectedPathIdent);
    assert_eq!(err.culprit, Culprit::EndOfInput);
    assert_eq!(err.position, pos(2, 2));
}

#[test]
fn strict_path_wants_an_identifier_first() {
    let tokens = lex("a.\"b\".3");
    let path = Path::parse_w_error(&mut Parxt::new(&tokens)).unwrap();
    let names: Vec<String> = Path::flatten(&path).into_iter().map(|s| s.name).collect();
    assert_eq!(names, vec!["a", "b", "3"]);
    for (src, suggestion) in [
        ("12.x", "\"12.x\""),
        ("true", "\"true\""),
        ("\"q\".a.b :", "\"q.a.b\""),
        ("\"q\".", "\"q\""),
    ] {
        let tokens = lex(src);
        let mut parxt = Parxt::new(&tokens);
        let err = Path::parse_w_error(&mut parxt).unwrap_err();
        assert_eq!(err.kind, SyntaxErrorKind::PathHeadNotIdent);
        assert_eq!(err.suggestion, suggestion);
        assert_eq!(parxt.idx, 0);
    }
    let tokens = lex("{");
    let err = Path::parse_w_error(&mut Parxt::new(&tokens)).unwrap_err();
    assert_eq!(err.kind, SyntaxErrorKind::ExpectedPath);
}

#[test]
fn literal_path_head_is_refused_at_a_statement_head() {
    let err = parse_err("\"notanident\".foo: 1");
    assert_eq!(err.kind, SyntaxErrorKind::PathHeadNotIdent);
    assert_eq!(err.suggestion, "\"notanident.foo\"");
    assert_eq!(
        err.message(),
        "try using `\"notanident.foo\"` instead of `\"notanident\"`"
    );
}

#[test]
fn atoms_are_chosen_by_their_first_token() {
    let cases: Vec<(&str, Atom)> = vec![
        ("42", Atom::Int(42)),
        ("true", Atom::Bool(true)),
        ("\"s\"", Atom::Str("s".to_string())),
        ("{}", Atom::Table(Box::new(Node { position: pos(0, 2), node: Table::Empty }))),
        ("[]", Atom::List(Box::new(Node { position: pos(0, 2), node: List::Empty }))),
        ("()", Atom::Expr(Box::new(Node { position: pos(0, 2), node: Expr { tokens: vec![] } }))),
        ("p", Atom::Path(Node { position: pos(0, 1), node: Path::Tail("p".to_string()) })),
    ];
    for (src, expected) in cases {
        let tokens = lex(src);
        let mut parxt = Parxt::new(&tokens);
        let atom = Atom::parse(&mut parxt).unwrap();
        assert_eq!(atom.node, expected, "{}", src);
        assert!(parxt.done());
    }
}

#[test]
fn raw_token_is_a_raw_atom() {
    let tokens =
        vec![Lexeme { position: pos(4, 9), token: Token::RawConf("as is".to_string()) }];
    let atom = Atom::parse(&mut Parxt::new(&tokens)).unwrap();
    assert_eq!(atom, Node { position: pos(4, 9), node: Atom::RawConf("as is".to_string()) });
}

#[test]
fn apply_wraps_the_atom_after_it() {
    let tokens = lex("a.b >> c >> 1");
    let atom = Atom::parse(&mut Parxt::new(&tokens)).unwrap();
    assert_eq!(atom.position, pos(0, 13));
    match atom.node {
        Atom::Apply(outer, inner) => {
            assert_eq!(outer.position, pos(0, 3));
            match inner.node {
                Atom::Apply(path, last) => {
                    assert_eq!(path.node, Path::Tail("c".to_string()));
                    assert_eq!(last.node, Atom::Int(1));
                }
                other => panic!("expected an apply, found {:?}", other),
            }
        }
        other => panic!("expected an apply, found {:?}", other),
    }
}

#[test]
fn tokens_that_start_no_atom_are_refused() {
    for src in ["", ">>", "}", "$ ls\n", "conff", ":", "*"] {
        let tokens = lex(src);
        let mut parxt = Parxt::new(&tokens);
        let err = Atom::parse(&mut parxt).unwrap_err();
        assert_eq!(err.kind, SyntaxErrorKind::ExpectedAtom, "{:?}", src);
        assert_eq!(parxt.idx, 0);
    }
    let err = parse_err("a: ");
    assert_eq!(err.kind, SyntaxErrorKind::ExpectedAtom);
    assert_eq!(err.culprit, Culprit::EndOfInput);
    assert_eq!(err.position, pos(2, 2));
}

#[test]
fn statement_needs_an_assignment_operator() {
    let err = parse_err("a.b 1");
    assert_eq!(err.kind, SyntaxErrorKind::ExpectedAssign);
    assert_eq!(err.position, pos(4, 5));
    assert_eq!(err.culprit, Culprit::Token(Token::Int(1)));
    assert_eq!(err.message(), "expected `:` or `=`, found `1`");
}

#[test]
fn both_assignment_operators_are_accepted() {
    let colon = SourceFile::parse(&lex("a : 1")).unwrap();
    let equals = SourceFile::parse(&lex("a = 1")).unwrap();
    assert_eq!(colon, equals);
    match colon.body.node {
        Table::Tail(stmt) => match stmt.node {
            Stmt::Config(path, atom) => {
                assert_eq!(path.node, Path::Tail("a".to_string()));
                assert_eq!(atom.node, Atom::Int(1));
                assert_eq!(stmt.position, pos(0, 5));
            }
        },
        other => panic!("expected one statement, found {:?}", other),
    }
}

#[test]
fn statement_is_refused_where_none_starts() {
    let tokens = lex("{ a: 1 }");
    let mut parxt = Parxt::new(&tokens);
    let err = Stmt::parse(&mut parxt).unwrap_err();
    assert_eq!(err.kind, SyntaxErrorKind::ExpectedStmt);
    assert_eq!(err.culprit, Culprit::Token(Token::LBrace));
    let err = parse_err("a: 1 }");
    assert_eq!(err.kind, SyntaxErrorKind::ExpectedStmt);
    assert_eq!(err.position, pos(5, 6));
}

fn table_len(table: &Node<Table>) -> usize {
    match &table.node {
        Table::Empty => 0,
        Table::Tail(_) => 1,
        Table::Head(_, rest) => 1 + table_len(rest),
    }
}

fn list_len(list: &Node<List>) -> usize {
    match &list.node {
        List::Empty => 0,
        List::Tail(_) => 1,
        List::Head(_, rest) => 1 + list_len(rest),
    }
}

#[test]
fn separators_are_optional() {
    for src in ["{ a: 1; b: 2; c: 3; }", "{ a: 1, b: 2, c: 3 }", "{ a: 1 b: 2 c: 3 }", "{a:1;b:2 c:3,}"]
    {
        let tokens = lex(src);
        let mut parxt = Parxt::new(&tokens);
        let table = Table::parse(&mut parxt).unwrap();
        assert!(parxt.done());
        assert_eq!(table_len(&table), 3, "{}", src);
    }
    for src in ["[1, 2, 3]", "[1; 2; 3;]", "[1 2 3]", "[ a b.c \"d\" ]"] {
        let tokens = lex(src);
        let mut parxt = Parxt::new(&tokens);
        let list = List::parse(&mut parxt).unwrap();
        assert!(parxt.done());
        assert_eq!(list_len(&list), 3, "{}", src);
    }
}

#[test]
fn table_items_stop_where_no_statement_starts() {
    let tokens = lex("a: 1; b: 2 ] c: 3");
    let mut parxt = Parxt::new(&tokens);
    let items = Table::table_item(&mut parxt).unwrap();
    assert_eq!(table_len(&items), 2);
    assert_eq!(items.position, pos(0, 10));
    assert_eq!(parxt.idx, 7);
}

#[test]
fn list_items_stop_where_no_atom_starts() {
    let tokens = lex("1, 2, } 3");
    let mut parxt = Parxt::new(&tokens);
    let items = List::list_item(&mut parxt).unwrap();
    assert_eq!(list_len(&items), 2);
    assert_eq!(parxt.idx, 4);
}

#[test]
fn table_must_be_opened_and_closed() {
    let tokens = lex("[ a: 1 ]");
    let err = Table::parse(&mut Parxt::new(&tokens)).unwrap_err();
    assert_eq!(err.kind, SyntaxErrorKind::ExpectedTable);
    let err = parse_err("t: { a: 1 ]");
    assert_eq!(err.kind, SyntaxErrorKind::ExpectedTableClose);
    assert_eq!(err.culprit, Culprit::Token(Token::RBracket));
    assert_eq!(err.message(), "expected `}`, found `]`");
    let err = parse_err("t: { a: 1;");
    assert_eq!(err.kind, SyntaxErrorKind::ExpectedTableClose);
    assert_eq!(err.culprit, Culprit::EndOfInput);
    let err = parse_err("t: { ; }");
    assert_eq!(err.kind, SyntaxErrorKind::ExpectedStmt);
}

#[test]
fn list_must_be_opened_and_closed() {
    let tokens = lex("{ 1 }");
    let err = List::parse(&mut Parxt::new(&tokens)).unwrap_err();
    assert_eq!(err.kind, SyntaxErrorKind::ExpectedList);
    let err = parse_err("l: [1, 2 }");
    assert_eq!(err.kind, SyntaxErrorKind::ExpectedListClose);
    assert_eq!(err.position, pos(9, 10));
    let err = parse_err("l: [1, 2");
    assert_eq!(err.kind, SyntaxErrorKind::ExpectedListClose);
    let err = parse_err("l: [ , ]");
    assert_eq!(err.kind, SyntaxErrorKind::ExpectedAtom);
}

#[test]
fn expression_keeps_its_tokens() {
    let tokens = lex("(a == (1 * 2)) tail");
    let mut parxt = Parxt::new(&tokens);
    let expr = Expr::parse(&mut parxt).unwrap();
    assert_eq!(parxt.idx, 9);
    assert_eq!(expr.position, pos(0, 14));
    assert_eq!(expr.node.tokens, tokens[1..8].to_vec());
}

#[test]
fn expression_must_be_opened_and_closed() {
    let tokens = lex("1 + 2".replace('+', "*").as_str());
    let err = Expr::parse(&mut Parxt::new(&tokens)).unwrap_err();
    assert_eq!(err.kind, SyntaxErrorKind::ExpectedExpr);
    let err = parse_err("e: ((1)");
    assert_eq!(err.kind, SyntaxErrorKind::ExpectedExprClose);
    assert_eq!(err.culprit, Culprit::EndOfInput);
    assert_eq!(err.position, pos(7, 7));
}

#[test]
fn empty_script_is_an_empty_table() {
    let file = SourceFile::parse(&[]).unwrap();
    assert_eq!(file.body, Node { position: pos(0, 0), node: Table::Empty });
    let file = SourceFile::parse(&lex("# nothing here\n")).unwrap();
    assert_eq!(file.body.node, Table::Empty);
}

#[test]
fn nested_structures_parse() {
    let file = SourceFile::parse(&lex(
        "a: { b: [ { c: 1 }, [2, 3], d.e >> { f: g } ]; h = \"i\" }\nj: k",
    ))
    .unwrap();
    assert_eq!(table_len(&file.body), 2);
    assert_eq!(file.body.position, pos(0, 61));
}

#[test]
fn parxt_reports_the_token_it_looks_at() {
    let tokens = lex("a: 1");
    let mut parxt = Parxt::new(&tokens);
    assert_eq!(parxt.current(), Some(&Token::Ident("a".to_string())));
    assert_eq!(parxt.position(), pos(0, 1));
    assert!(!parxt.done());
    parxt.idx = 3;
    assert_eq!(parxt.current(), None);
    assert_eq!(parxt.position(), pos(4, 4));
    assert!(parxt.done());
    let none: Vec<Lexeme> = vec![];
    assert_eq!(Parxt::new(&none).position(), pos(0, 0));
}

#[test]
fn table_and_list_cover_their_delimiters() {
    let tokens = lex("t: { a: 1; b: 2 }");
    let mut parxt = Parxt::new(&tokens);
    parxt.idx = 2;
    let table = Table::parse(&mut parxt).unwrap();
    assert_eq!(table.position, pos(3, 17));
    match &table.node {
        Table::Head(first, rest) => {
            assert_eq!(first.position, pos(5, 9));
            assert_eq!(rest.position, pos(11, 15));
        }
        other => panic!("expected two statements, found {:?}", other),
    }
    let tokens = lex("[ 10, 20 ]");
    let list = List::parse(&mut Parxt::new(&tokens)).unwrap();
    assert_eq!(list.position, pos(0, 10));
    match &list.node {
        List::Head(first, rest) => {
            assert_eq!(first.position, pos(2, 4));
            assert_eq!(rest.position, pos(6, 8));
        }
        other => panic!("expected two atoms, found {:?}", other),
    }
}
