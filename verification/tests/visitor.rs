use onefig::cli::Cli;
use onefig::errors::{Culprit, SyntaxErrorKind};
use onefig::nodes::atom::Atom;
use onefig::nodes::node::Node;
use onefig::nodes::path::Path;
use onefig::nodes::source_file::SourceFile;
use onefig::nodes::stmt::Stmt;
use onefig::parxt::Parxt;
use onefig::position::Position;
use onefig::token::Token;
use onefig::visitor::{copy_scope, extend_scope, names_of, ActionTree, Entry, ResolvedValue, Segment};

fn resolve(src: &str) -> Vec<Entry> {
    let tokens = Token::tokenize(src).unwrap();
    let file = SourceFile::parse(&tokens).unwrap();
    file.visit("test.nf").unwrap().entries
}

fn path(segments: &[&str]) -> Vec<String> {
    segments.iter().map(|s| s.to_string()).collect()
}

#[test]
fn single_assignment_resolves_to_one_entry() {
    let entries = resolve("foo: 1");
    assert_eq!(
        entries,
        vec![Entry {
            path: path(&["foo"]),
            value: ResolvedValue::Int(1),
            position: Position { start: 5, end: 6 },
        }]
    );
}

#[test]
fn table_statement_is_keyed_under_its_parent() {
    let entries = resolve("a.b: { c: \"x\"; }");
    assert_eq!(entries.len(), 1);
    assert_eq!(entries[0].path, path(&["a", "b"]));
    match &entries[0].value {
        ResolvedValue::Table(inner) => {
            assert_eq!(inner.len(), 1);
            assert_eq!(inner[0].path, path(&["a", "b", "c"]));
            assert_eq!(inner[0].value, ResolvedValue::Str("x".to_string()));
        }
        other => panic!("expected a table, found {:?}", other),
    }
}

#[test]
fn apply_prefix_keys_the_table_it_is_applied_to() {
    let tokens = Token::tokenize("x >> { y: true; }").unwrap();
    let mut parxt = Parxt::new(&tokens);
    let atom = Atom::parse(&mut parxt).unwrap();
    assert_eq!(parxt.idx, tokens.len());
    let (_, value) = atom.visit(&[]).unwrap();
    match value {
        ResolvedValue::Table(inner) => {
            assert_eq!(inner.len(), 1);
            assert_eq!(inner[0].path, path(&["x", "y"]));
            assert_eq!(inner[0].value, ResolvedValue::Bool(true));
        }
        other => panic!("expected a table, found {:?}", other),
    }
}

#[test]
fn apply_replaces_the_enclosing_scope() {
    let entries = resolve("a: x >> { y: 1; }");
    assert_eq!(entries[0].path, path(&["a"]));
    match &entries[0].value {
        ResolvedValue::Table(inner) => assert_eq!(inner[0].path, path(&["x", "y"])),
        other => panic!("expected a table, found {:?}", other),
    }
}

#[test]
fn literal_path_head_is_refused_with_a_quoted_rewrite() {
    let tokens = Token::tokenize("\"notanident\".foo: 1").unwrap();
    let err = SourceFile::parse(&tokens).unwrap_err();
    assert_eq!(err.kind, SyntaxErrorKind::PathHeadNotIdent);
    assert_eq!(err.position, Position { start: 0, end: 12 });
    assert_eq!(err.culprit, Culprit::Token(Token::Str("notanident".to_string())));
    assert_eq!(err.suggestion, "\"notanident.foo\"");
}

#[test]
fn path_reference_is_relative_to_its_statement() {
    let entries = resolve("a.b: c.d");
    assert_eq!(entries[0].value, ResolvedValue::Path(path(&["a", "b", "c", "d"])));
}

#[test]
fn expression_is_reported_as_unsupported() {
    let tokens = Token::tokenize("a: (1 == 2)").unwrap();
    let file = SourceFile::parse(&tokens).unwrap();
    let err = file.visit("test.nf").unwrap_err();
    assert_eq!(err.kind, SyntaxErrorKind::UnsupportedExpr);
    assert_eq!(err.position, Position { start: 3, end: 11 });
}

#[test]
fn table_entry_is_one_flat_assignment() {
    let tree = Cli::get_conff_tree("t.nf", "a.b: { c: \"x\"; }").unwrap();
    let plan = tree.generate();
    assert_eq!(plan.len(), 1);
    assert_eq!(plan[0].path, path(&["a", "b", "c"]));
    assert_eq!(plan[0].value, ResolvedValue::Str("x".to_string()));
    assert_eq!(plan[0].position, Position { start: 10, end: 13 });
}

fn inner(entry: &Entry, index: usize) -> &Entry {
    match &entry.value {
        ResolvedValue::Table(entries) => &entries[index],
        other => panic!("expected a table, found {:?}", other),
    }
}

#[test]
fn nested_keys_concatenate_enclosing_paths() {
    let entries = resolve("a.b: { skip: 0; c: { d.e: { f: 1; g.h: \"deep\" } } }");
    let top = &entries[0];
    assert_eq!(top.path, path(&["a", "b"]));
    let c = inner(top, 1);
    assert_eq!(c.path, path(&["a", "b", "c"]));
    let de = inner(c, 0);
    assert_eq!(de.path, path(&["a", "b", "c", "d", "e"]));
    assert_eq!(inner(de, 0).path, path(&["a", "b", "c", "d", "e", "f"]));
    assert_eq!(inner(de, 1).path, path(&["a", "b", "c", "d", "e", "g", "h"]));
    assert_eq!(inner(de, 1).value, ResolvedValue::Str("deep".to_string()));
}

#[test]
fn keys_under_an_apply_start_at_its_prefix() {
    let entries = resolve("a: { b: p.q >> { c: { d: 1 } } }");
    let b = inner(&entries[0], 0);
    assert_eq!(b.path, path(&["a", "b"]));
    let c = inner(b, 0);
    assert_eq!(c.path, path(&["p", "q", "c"]));
    assert_eq!(inner(c, 0).path, path(&["p", "q", "c", "d"]));
}

#[test]
fn entries_keep_source_order() {
    let entries = resolve("z: 1; a: 2; m: 3; a: 4");
    let keys: Vec<Vec<String>> = entries.iter().map(|e| e.path.clone()).collect();
    assert_eq!(keys, vec![path(&["z"]), path(&["a"]), path(&["m"]), path(&["a"])]);
    assert_eq!(entries[1].value, ResolvedValue::Int(2));
    assert_eq!(entries[3].value, ResolvedValue::Int(4));
}

#[test]
fn list_children_resolve_under_the_same_scope() {
    let entries = resolve("k: [1, \"two\", true, r, [x.y], { z: 0 }]");
    assert_eq!(
        entries[0].value,
        ResolvedValue::List(vec![
            ResolvedValue::Int(1),
            ResolvedValue::Str("two".to_string()),
            ResolvedValue::Bool(true),
            ResolvedValue::Path(path(&["k", "r"])),
            ResolvedValue::List(vec![ResolvedValue::Path(path(&["k", "x", "y"]))]),
            ResolvedValue::Table(vec![Entry {
                path: path(&["k", "z"]),
                value: ResolvedValue::Int(0),
                position: Position { start: 35, end: 36 },
            }]),
        ])
    );
    assert_eq!(entries[0].position, Position { start: 3, end: 39 });
}

#[test]
fn raw_atom_resolves_to_a_raw_value() {
    let atom = Node::new(Position::new(2, 5), Atom::RawConf("as is".to_string()));
    assert_eq!(
        atom.visit(&[]).unwrap(),
        (Position { start: 2, end: 5 }, ResolvedValue::Raw("as is".to_string()))
    );
}

#[test]
fn statement_resolves_under_the_scope_it_is_given() {
    let stmt = Node::new(
        Position::new(0, 4),
        Stmt::Config(
            Node::new(Position::new(0, 1), Path::Tail("k".to_string())),
            Node::new(Position::new(3, 4), Atom::Int(9)),
        ),
    );
    let scope = vec![
        Segment { position: Position::new(10, 11), name: "outer".to_string() },
        Segment { position: Position::new(12, 13), name: "mid".to_string() },
    ];
    assert_eq!(
        stmt.visit(&scope).unwrap(),
        Entry {
            path: path(&["outer", "mid", "k"]),
            value: ResolvedValue::Int(9),
            position: Position { start: 3, end: 4 },
        }
    );
}

#[test]
fn scopes_are_copied_extended_and_named() {
    let scope = vec![
        Segment { position: Position::new(0, 1), name: "a".to_string() },
        Segment { position: Position::new(2, 3), name: "b".to_string() },
    ];
    assert_eq!(copy_scope(&scope), scope);
    assert_eq!(names_of(&scope), path(&["a", "b"]));
    let tail = Node::new(
        Position::new(5, 8),
        Path::More(
            "c".to_string(),
            Box::new(Node::new(Position::new(7, 8), Path::Tail("d".to_string()))),
        ),
    );
    let extended = extend_scope(&scope, &tail);
    assert_eq!(names_of(&extended), path(&["a", "b", "c", "d"]));
    assert_eq!(extended[2].position, Position { start: 5, end: 8 });
    assert_eq!(extended[3].position, Position { start: 7, end: 8 });
}

#[test]
fn script_becomes_an_action_tree_with_its_origin() {
    let tree = ActionTree::from_script("home.nf", "a: 1").unwrap();
    assert_eq!(tree.origin, "home.nf");
    assert_eq!(tree.entries.len(), 1);
    let again = ActionTree::from_script("home.nf", "a: 1").unwrap();
    assert_eq!(tree, again);
}

#[test]
fn first_failure_ends_the_run() {
    let err = ActionTree::from_script("f.nf", "a: 1; b: @; c: (").unwrap_err();
    assert_eq!(err.kind, SyntaxErrorKind::UnexpectedCharacter);
    let err = ActionTree::from_script("f.nf", "a: 1; b 2; c: (1)").unwrap_err();
    assert_eq!(err.kind, SyntaxErrorKind::ExpectedAssign);
    let err = ActionTree::from_script("f.nf", "a: 1; c: [(1), (2)]").unwrap_err();
    assert_eq!(err.kind, SyntaxErrorKind::UnsupportedExpr);
    assert_eq!(err.position, Position { start: 10, end: 13 });
}
