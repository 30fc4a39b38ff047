use flexar::flext::Flext;
use flexar::lext::Lext;
use onefig::position::Position;

#[test]
fn line_and_column_count_from_one() {
    let src: Vec<char> = "ab\ncd\n\nxyz".chars().collect();
    let at = |offset: usize| Position::new(offset, offset).line_column(&src);
    assert_eq!(at(0), (1, 1));
    assert_eq!(at(1), (1, 2));
    assert_eq!(at(2), (1, 3));
    assert_eq!(at(3), (2, 1));
    assert_eq!(at(5), (2, 3));
    assert_eq!(at(6), (3, 1));
    assert_eq!(at(7), (4, 1));
    assert_eq!(at(9), (4, 3));
    assert_eq!(at(10), (4, 4));
}

#[test]
fn combined_range_runs_from_first_start_to_last_end() {
    let a = Position::new(3, 5);
    let b = Position::new(9, 14);
    assert_eq!(a.combine(&b), Position { start: 3, end: 14 });
    assert_eq!(a.combine(&a), a);
}

#[test]
fn lines_and_columns_agree_with_the_renderer() {
    let text = "alpha: 1\nbeta = { gamma: \"x\" }\n\n  # note\nlast";
    let chars: Vec<char> = text.chars().collect();
    let mut walker = Lext::new("agree.nf".to_string(), text);
    let mut offset = 0;
    while let Some(c) = walker.current {
        let place = (walker.cursor.pos_end.ln as usize, walker.cursor.pos_end.ln_idx as usize);
        let ours = Position::new(offset, offset).line_column(&chars);
        if offset < chars.len() && chars[offset] == c && ours == place {
            offset += 1;
        } else {
            // The renderer's walker adds newlines of its own at line ends.
            assert_eq!(c, '\n');
        }
        walker.advance();
    }
    assert_eq!(offset, chars.len());
}
