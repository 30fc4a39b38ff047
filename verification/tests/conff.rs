use onefig::cli::Cli;
use onefig::conff::{checksum_of, ConffTree, LoadError};
use onefig::errors::SyntaxErrorKind;
use onefig::position::Position;
use onefig::visitor::{ActionTree, Entry, ResolvedValue};

fn path(segments: &[&str]) -> Vec<String> {
    segments.iter().map(|s| s.to_string()).collect()
}

fn entry(segments: &[&str], value: ResolvedValue, start: usize, end: usize) -> Entry {
    Entry { path: path(segments), value, position: Position { start, end } }
}

fn sample_entries() -> Vec<Entry> {
    vec![
        entry(&["a"], ResolvedValue::Int(18446744073709551615), 0, 1),
        entry(&["b", "c"], ResolvedValue::Bool(true), 2, 6),
        entry(&["s"], ResolvedValue::Str("héllo \"wörld\"\n".to_string()), 7, 9),
        entry(&["r"], ResolvedValue::Raw("raw text".to_string()), 10, 12),
        entry(&["p"], ResolvedValue::Path(path(&["b", "c"])), 13, 14),
        entry(
            &["l"],
            ResolvedValue::List(vec![
                ResolvedValue::Int(1),
                ResolvedValue::List(vec![ResolvedValue::Bool(false)]),
                ResolvedValue::Table(vec![entry(&["l", "x"], ResolvedValue::Int(2), 20, 21)]),
            ]),
            15,
            30,
        ),
        entry(
            &["t"],
            ResolvedValue::Table(vec![
                entry(&["t", "u"], ResolvedValue::Str(String::new()), 31, 33),
                entry(
                    &["t", "v"],
                    ResolvedValue::Table(vec![entry(
                        &["t", "v", "w"],
                        ResolvedValue::Path(path(&["t", "v", "a"])),
                        40,
                        41,
                    )]),
                    34,
                    45,
                ),
            ]),
            31,
            46,
        ),
    ]
}

fn sample_tree() -> ConffTree {
    ConffTree::from_att(ActionTree { origin: "sample.nf".to_string(), entries: sample_entries() })
        .unwrap()
}

#[test]
fn compiled_tree_loads_back_unchanged() {
    let tree = sample_tree();
    let bytes = tree.compile();
    let loaded = ConffTree::load_compiled(&bytes).unwrap();
    assert_eq!(loaded, tree);
    assert_eq!(loaded.origin(), "sample.nf");
    assert_eq!(loaded.entries(), &sample_entries());
}

#[test]
fn empty_tree_has_a_fixed_encoding() {
    let tree =
        ConffTree::from_att(ActionTree { origin: "a".to_string(), entries: vec![] }).unwrap();
    let bytes = tree.compile();
    let payload: Vec<u8> = vec![
        0x4f, 0x4e, 0x46, 0x47, 1, // magic, version
        1, 0, 0, 0, 0, 0, 0, 0, 0x61, // origin
        0, 0, 0, 0, 0, 0, 0, 0, // entry count
    ];
    let mut sum: u64 = 0;
    for b in &payload {
        sum = (sum * 31 + *b as u64) % 0x1_0000_0000;
    }
    let mut expected = payload.clone();
    expected.extend_from_slice(&(sum as u32).to_le_bytes());
    assert_eq!(bytes, expected);
}

#[test]
fn single_entry_has_a_fixed_encoding() {
    let tree = ConffTree::from_att(ActionTree {
        origin: String::new(),
        entries: vec![entry(&["k"], ResolvedValue::Bool(true), 3, 7)],
    })
    .unwrap();
    let bytes = tree.compile();
    let body: Vec<u8> = vec![
        0, 0, 0, 0, 0, 0, 0, 0, // origin: empty text
        1, 0, 0, 0, 0, 0, 0, 0, // one entry
        1, 0, 0, 0, 0, 0, 0, 0, // path: one segment
        1, 0, 0, 0, 0, 0, 0, 0, 0x6b, // "k"
        3, 0, 0, 0, 0, 0, 0, 0, // start
        7, 0, 0, 0, 0, 0, 0, 0, // end
        1, 1, // bool true
    ];
    assert_eq!(&bytes[5..bytes.len() - 4], &body[..]);
}

#[test]
fn artifact_without_magic_is_refused() {
    assert_eq!(ConffTree::load_compiled(&[]).unwrap_err(), LoadError::BadMagic);
    assert_eq!(ConffTree::load_compiled(b"nope, not it").unwrap_err(), LoadError::BadMagic);
}

#[test]
fn artifact_of_another_version_is_refused() {
    let mut bytes = sample_tree().compile();
    bytes[4] = 2;
    assert_eq!(ConffTree::load_compiled(&bytes).unwrap_err(), LoadError::UnsupportedVersion);
    assert_eq!(
        ConffTree::load_compiled(&[0x4f, 0x4e, 0x46, 0x47]).unwrap_err(),
        LoadError::UnsupportedVersion
    );
}

#[test]
fn artifact_cut_before_the_checksum_is_refused() {
    assert_eq!(
        ConffTree::load_compiled(&[0x4f, 0x4e, 0x46, 0x47, 1, 0, 0]).unwrap_err(),
        LoadError::Truncated
    );
}

#[test]
fn corrupted_artifact_is_refused() {
    let mut bytes = sample_tree().compile();
    let middle = bytes.len() / 2;
    bytes[middle] ^= 0x40;
    assert_eq!(ConffTree::load_compiled(&bytes).unwrap_err(), LoadError::ChecksumMismatch);
}

fn with_checksum(payload: &[u8]) -> Vec<u8> {
    let mut sum: u64 = 0;
    for b in payload {
        sum = (sum * 31 + *b as u64) % 0x1_0000_0000;
    }
    let mut bytes = payload.to_vec();
    bytes.extend_from_slice(&(sum as u32).to_le_bytes());
    bytes
}

#[test]
fn shortened_contents_are_refused() {
    let full = sample_tree().compile();
    let payload = &full[..full.len() - 4 - 3];
    assert_eq!(
        ConffTree::load_compiled(&with_checksum(payload)).unwrap_err(),
        LoadError::Malformed
    );
}

#[test]
fn trailing_bytes_are_refused() {
    let full = sample_tree().compile();
    let mut payload = full[..full.len() - 4].to_vec();
    payload.push(0);
    assert_eq!(
        ConffTree::load_compiled(&with_checksum(&payload)).unwrap_err(),
        LoadError::Malformed
    );
}

#[test]
fn unknown_tag_and_bad_text_are_refused() {
    let header: Vec<u8> = vec![
        0x4f, 0x4e, 0x46, 0x47, 1, 0, 0, 0, 0, 0, 0, 0, 0, 1, 0, 0, 0, 0, 0, 0, 0, 1, 0, 0, 0, 0,
        0, 0, 0, 1, 0, 0, 0, 0, 0, 0, 0, 0x6b, 0, 0, 0, 0, 0, 0, 0, 0, 0, 0, 0, 0, 0, 0, 0, 0,
    ];
    let mut unknown = header.clone();
    unknown.extend_from_slice(&[9, 0]);
    assert_eq!(
        ConffTree::load_compiled(&with_checksum(&unknown)).unwrap_err(),
        LoadError::Malformed
    );
    let mut bad_bool = header.clone();
    bad_bool.extend_from_slice(&[1, 2]);
    assert_eq!(
        ConffTree::load_compiled(&with_checksum(&bad_bool)).unwrap_err(),
        LoadError::Malformed
    );
    let mut bad_text = header.clone();
    bad_text.extend_from_slice(&[2, 1, 0, 0, 0, 0, 0, 0, 0, 0xff]);
    assert_eq!(
        ConffTree::load_compiled(&with_checksum(&bad_text)).unwrap_err(),
        LoadError::Malformed
    );
    let mut good = header.clone();
    good.extend_from_slice(&[2, 1, 0, 0, 0, 0, 0, 0, 0, 0x7a]);
    let tree = ConffTree::load_compiled(&with_checksum(&good)).unwrap();
    assert_eq!(tree.entries()[0].value, ResolvedValue::Str("z".to_string()));
}

#[test]
fn stored_empty_segment_is_refused() {
    let payload: Vec<u8> = vec![
        0x4f, 0x4e, 0x46, 0x47, 1, 0, 0, 0, 0, 0, 0, 0, 0, 1, 0, 0, 0, 0, 0, 0, 0, 1, 0, 0, 0, 0,
        0, 0, 0, 0, 0, 0, 0, 0, 0, 0, 0, 0, 0, 0, 0, 0, 0, 0, 0, 0, 0, 0, 0, 0, 0, 0, 0, 1, 1,
    ];
    assert_eq!(
        ConffTree::load_compiled(&with_checksum(&payload)).unwrap_err(),
        LoadError::Malformed
    );
}

#[test]
fn entry_with_empty_segment_is_refused_at_its_position() {
    let err = ConffTree::from_att(ActionTree {
        origin: "x".to_string(),
        entries: vec![
            entry(&["ok"], ResolvedValue::Int(1), 0, 1),
            entry(&["a", ""], ResolvedValue::Int(2), 5, 9),
            entry(&[], ResolvedValue::Int(3), 10, 11),
        ],
    })
    .unwrap_err();
    assert_eq!(err.kind, SyntaxErrorKind::EmptyPathSegment);
    assert_eq!(err.position, Position { start: 5, end: 9 });
}

#[test]
fn nested_empty_reference_is_refused() {
    let err = ConffTree::from_att(ActionTree {
        origin: "x".to_string(),
        entries: vec![entry(
            &["l"],
            ResolvedValue::List(vec![ResolvedValue::Path(vec![])]),
            2,
            4,
        )],
    })
    .unwrap_err();
    assert_eq!(err.position, Position { start: 2, end: 4 });
}

#[test]
fn plan_lists_leaf_assignments_depth_first() {
    let tree = sample_tree();
    let plan = tree.generate();
    let keys: Vec<Vec<String>> = plan.iter().map(|e| e.path.clone()).collect();
    assert_eq!(
        keys,
        vec![
            path(&["a"]),
            path(&["b", "c"]),
            path(&["s"]),
            path(&["r"]),
            path(&["p"]),
            path(&["l"]),
            path(&["t", "u"]),
            path(&["t", "v", "w"]),
        ]
    );
    assert_eq!(plan[7].value, ResolvedValue::Path(path(&["t", "v", "a"])));
}

#[test]
fn applying_a_plan_twice_gives_the_same_state() {
    let tree = Cli::get_conff_tree("twice.nf", "a: 1; b: { c: 2; }; a: 3; b.c: [4, 5];").unwrap();
    let plan = tree.generate();
    let mut state: Vec<(Vec<String>, String)> = Vec::new();
    let mut apply = |state: &mut Vec<(Vec<String>, String)>| {
        for e in &plan {
            let shown = format!("{:?}", e.value);
            match state.iter_mut().find(|(k, _)| *k == e.path) {
                Some(slot) => slot.1 = shown,
                None => state.push((e.path.clone(), shown)),
            }
        }
    };
    apply(&mut state);
    let once = state.clone();
    apply(&mut state);
    assert_eq!(state, once);
    assert_eq!(once.len(), 2);
    assert_eq!(once[0], (path(&["a"]), "Int(3)".to_string()));
    assert_eq!(once[1], (path(&["b", "c"]), "List([Int(4), Int(5)])".to_string()));
}

#[test]
fn script_resolves_the_same_way_every_time() {
    let src = "a.b: { c: \"x\"; d: [1, true, e.f]; }\ng = h >> { i: 2 }\n# done\n";
    let first = Cli::get_conff_tree("det.nf", src).unwrap();
    let second = Cli::get_conff_tree("det.nf", src).unwrap();
    assert_eq!(first, second);
    assert_eq!(first.compile(), second.compile());
    assert_eq!(first.entries().len(), 2);
}

#[test]
fn script_tree_survives_compile_and_load() {
    let src = "net: { host: \"example\"; ports: [80, 443]; alias: host; }\nflag = true;";
    let tree = Cli::get_conff_tree("net.nf", src).unwrap();
    let loaded = ConffTree::load_compiled(&tree.compile()).unwrap();
    assert_eq!(loaded, tree);
    match &loaded.entries()[0].value {
        ResolvedValue::Table(inner) => {
            assert_eq!(inner[2].path, path(&["net", "alias"]));
            assert_eq!(inner[2].value, ResolvedValue::Path(path(&["net", "alias", "host"])));
        }
        other => panic!("expected a table, found {:?}", other),
    }
}

#[test]
fn empty_quoted_segment_is_refused_by_the_pipeline() {
    let err = Cli::get_conff_tree("e.nf", "a.\"\": 1").unwrap_err();
    assert_eq!(err.kind, SyntaxErrorKind::EmptyPathSegment);
}

#[test]
fn every_load_failure_says_why() {
    assert_eq!(LoadError::BadMagic.message(), "not an onefig binary");
    assert_eq!(LoadError::UnsupportedVersion.message(), "written by another version of onefig");
    assert_eq!(LoadError::Truncated.message(), "cut short before the checksum");
    assert_eq!(LoadError::ChecksumMismatch.message(), "corrupted: the checksum does not match");
    assert_eq!(LoadError::Malformed.message(), "malformed contents");
}

#[test]
fn checksum_folds_bytes_with_31() {
    assert_eq!(checksum_of(&[]), 0);
    assert_eq!(checksum_of(&[7]), 7);
    assert_eq!(checksum_of(&[1, 2, 3]), 1026);
    assert_eq!(checksum_of(&[255; 16]), {
        let mut sum: u64 = 0;
        for _ in 0..16 {
            sum = (sum * 31 + 255) % 0x1_0000_0000;
        }
        sum as u32
    });
}

#[test]
fn artifact_ends_with_its_checksum() {
    let tree =
        ConffTree::from_att(ActionTree { origin: "a".to_string(), entries: vec![] }).unwrap();
    let bytes = tree.compile();
    assert_eq!(&bytes[bytes.len() - 4..], &[97, 238, 138, 253]);
}
