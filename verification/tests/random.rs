use onefig::cli::Cli;
use onefig::conff::ConffTree;
use onefig::position::Position;
use onefig::token::Token;
use onefig::visitor::{ActionTree, Entry, ResolvedValue};

/// A small deterministic generator: the same seed gives the same sequence.
struct Dice(u64);

impl Dice {
    fn next(&mut self) -> u64 {
        self.0 = self.0.wrapping_mul(6364136223846793005).wrapping_add(1442695040888963407);
        self.0 >> 33
    }

    fn below(&mut self, n: u64) -> u64 {
        self.next() % n
    }

    fn text(&mut self, min: u64) -> String {
        let alphabet: Vec<char> = "ab_-9 \n\t\"\\é漢🙂.:{}".chars().collect();
        let len = min + self.below(6);
        (0..len).map(|_| alphabet[self.below(alphabet.len() as u64) as usize]).collect()
    }

    fn path(&mut self) -> Vec<String> {
        let len = 1 + self.below(3);
        (0..len).map(|_| self.text(1)).collect()
    }

    fn value(&mut self, depth: u32) -> ResolvedValue {
        let kinds = if depth == 0 { 5 } else { 7 };
        match self.below(kinds) {
            0 => ResolvedValue::Int(self.next() << 31 | self.next()),
            1 => ResolvedValue::Bool(self.below(2) == 1),
            2 => ResolvedValue::Str(self.text(0)),
            3 => ResolvedValue::Raw(self.text(0)),
            4 => ResolvedValue::Path(self.path()),
            5 => {
                let len = self.below(4);
                ResolvedValue::List((0..len).map(|_| self.value(depth - 1)).collect())
            }
            _ => {
                let len = self.below(4);
                ResolvedValue::Table((0..len).map(|_| self.entry(depth - 1)).collect())
            }
        }
    }

    fn entry(&mut self, depth: u32) -> Entry {
        let start = self.below(1000) as usize;
        Entry {
            path: self.path(),
            value: self.value(depth),
            position: Position { start, end: start + self.below(50) as usize },
        }
    }
}

#[test]
fn random_trees_survive_compile_and_load() {
    let mut dice = Dice(7);
    for _ in 0..300 {
        let count = dice.below(5);
        let entries: Vec<Entry> = (0..count).map(|_| dice.entry(3)).collect();
        let tree = ConffTree::from_att(ActionTree { origin: dice.text(0), entries }).unwrap();
        let bytes = tree.compile();
        let loaded = ConffTree::load_compiled(&bytes).unwrap();
        assert_eq!(loaded, tree);
        assert_eq!(loaded.compile(), bytes);
    }
}

#[test]
fn damaged_artifacts_never_load_as_something_else() {
    let mut dice = Dice(11);
    for _ in 0..200 {
        let entries: Vec<Entry> = (0..3).map(|_| dice.entry(2)).collect();
        let tree =
            ConffTree::from_att(ActionTree { origin: "o".to_string(), entries }).unwrap();
        let bytes = tree.compile();
        let mut damaged = bytes.clone();
        match dice.below(3) {
            0 => {
                let at = dice.below(damaged.len() as u64) as usize;
                damaged[at] ^= 1 << dice.below(8);
            }
            1 => {
                let keep = dice.below(damaged.len() as u64) as usize;
                damaged.truncate(keep);
            }
            _ => damaged.push(dice.below(256) as u8),
        }
        match ConffTree::load_compiled(&damaged) {
            Ok(loaded) => assert_eq!(loaded.compile(), damaged),
            Err(_) => {}
        }
    }
}

#[test]
fn random_text_lexes_the_same_way_twice() {
    let mut dice = Dice(23);
    let alphabet: Vec<char> =
        "ab_z09 \n\t\"\\.:=;,{}[]()<>!*$#/-é@".chars().collect();
    for _ in 0..2000 {
        let len = dice.below(40);
        let src: String =
            (0..len).map(|_| alphabet[dice.below(alphabet.len() as u64) as usize]).collect();
        let first = Token::tokenize(&src);
        assert_eq!(first, Token::tokenize(&src));
        if let Ok(tokens) = &first {
            let chars = src.chars().count();
            let mut last = 0;
            for lexeme in tokens {
                assert!(last <= lexeme.position.start);
                assert!(lexeme.position.start < lexeme.position.end);
                assert!(lexeme.position.end <= chars);
                last = lexeme.position.end;
            }
        }
        let tree = Cli::get_conff_tree("r.nf", &src);
        assert_eq!(tree, Cli::get_conff_tree("r.nf", &src));
        if let Ok(tree) = tree {
            assert_eq!(ConffTree::load_compiled(&tree.compile()), Ok(tree));
        }
    }
}

#[test]
fn random_scripts_resolve_and_round_trip() {
    let mut dice = Dice(5);
    let words = ["a", "b.c", "k-1", "_x", "d.e.f"];
    fn atom(dice: &mut Dice, depth: u32, words: &[&str]) -> String {
        let kinds = if depth == 0 { 4 } else { 7 };
        match dice.below(kinds) {
            0 => dice.below(100000).to_string(),
            1 => (dice.below(2) == 1).to_string(),
            2 => "\"s\\n\"".to_string(),
            3 => words[dice.below(words.len() as u64) as usize].to_string(),
            4 => {
                let items: Vec<String> =
                    (0..dice.below(4)).map(|_| atom(dice, depth - 1, words)).collect();
                format!("[{}]", items.join(", "))
            }
            5 => {
                let items: Vec<String> = (0..dice.below(4))
                    .map(|_| {
                        let key = words[dice.below(words.len() as u64) as usize];
                        format!("{}: {};", key, atom(dice, depth - 1, words))
                    })
                    .collect();
                format!("{{ {} }}", items.join(" "))
            }
            _ => {
                let key = words[dice.below(words.len() as u64) as usize];
                format!("{} >> {}", key, atom(dice, depth - 1, words))
            }
        }
    }
    for _ in 0..300 {
        let mut src = String::new();
        for _ in 0..1 + dice.below(4) {
            let key = words[dice.below(words.len() as u64) as usize];
            let value = atom(&mut dice, 3, &words);
            src.push_str(&format!("{} = {}\n", key, value));
        }
        let tree = Cli::get_conff_tree("gen.nf", &src).unwrap();
        assert_eq!(ConffTree::load_compiled(&tree.compile()).unwrap(), tree);
        for leaf in tree.generate() {
            assert!(!leaf.path.is_empty());
            assert!(!matches!(leaf.value, ResolvedValue::Table(_)));
        }
    }
}
