use onefig::codec::{
    append_bytes, read_entry, read_path, read_position, read_text, read_u64, read_value,
    write_entry, write_path, write_position, write_text, write_u64, write_value,
};
use onefig::position::Position;
use onefig::text::{bool_string, decimal_string, push_decimal, push_text};
use onefig::visitor::{Entry, ResolvedValue};

#[test]
fn integers_are_little_endian() {
    let mut out = vec![0xaa];
    write_u64(&mut out, 0x0102030405060708);
    assert_eq!(out, vec![0xaa, 8, 7, 6, 5, 4, 3, 2, 1]);
    assert_eq!(read_u64(&out, 1), Some((0x0102030405060708, 9)));
    assert_eq!(read_u64(&out, 2), None);
    assert_eq!(read_u64(&out, 9), None);
}

#[test]
fn text_is_length_then_utf8() {
    let mut out = Vec::new();
    write_text(&mut out, &"hé".to_string());
    assert_eq!(out, vec![3, 0, 0, 0, 0, 0, 0, 0, b'h', 0xc3, 0xa9]);
    assert_eq!(read_text(&out, 0), Some(("hé".to_string(), 11)));
    assert_eq!(read_text(&out[..10], 0), None);
    let split = vec![1, 0, 0, 0, 0, 0, 0, 0, 0xc3, 0xa9];
    assert_eq!(read_text(&split, 0), None);
    let huge = vec![0xff, 0xff, 0xff, 0xff, 0xff, 0xff, 0xff, 0xff, b'a'];
    assert_eq!(read_text(&huge, 0), None);
}

#[test]
fn path_is_count_then_segments() {
    let path = vec!["a".to_string(), "bc".to_string()];
    let mut out = Vec::new();
    write_path(&mut out, &path);
    assert_eq!(
        out,
        vec![
            2, 0, 0, 0, 0, 0, 0, 0, 1, 0, 0, 0, 0, 0, 0, 0, b'a', 2, 0, 0, 0, 0, 0, 0, 0, b'b',
            b'c'
        ]
    );
    assert_eq!(read_path(&out, 0), Some((path, 27)));
    out[0] = 3;
    assert_eq!(read_path(&out, 0), None);
}

#[test]
fn position_is_two_integers() {
    let mut out = Vec::new();
    write_position(&mut out, Position { start: 5, end: 258 });
    assert_eq!(out, vec![5, 0, 0, 0, 0, 0, 0, 0, 2, 1, 0, 0, 0, 0, 0, 0]);
    assert_eq!(read_position(&out, 0), Some((Position { start: 5, end: 258 }, 16)));
    assert_eq!(read_position(&out[..15], 0), None);
}

#[test]
fn values_are_tagged() {
    let cases: Vec<(ResolvedValue, Vec<u8>)> = vec![
        (ResolvedValue::Int(3), vec![0, 3, 0, 0, 0, 0, 0, 0, 0]),
        (ResolvedValue::Bool(false), vec![1, 0]),
        (ResolvedValue::Bool(true), vec![1, 1]),
        (ResolvedValue::Str("x".to_string()), vec![2, 1, 0, 0, 0, 0, 0, 0, 0, b'x']),
        (ResolvedValue::Raw("y".to_string()), vec![3, 1, 0, 0, 0, 0, 0, 0, 0, b'y']),
        (
            ResolvedValue::Path(vec!["p".to_string()]),
            vec![4, 1, 0, 0, 0, 0, 0, 0, 0, 1, 0, 0, 0, 0, 0, 0, 0, b'p'],
        ),
        (
            ResolvedValue::List(vec![ResolvedValue::Bool(true), ResolvedValue::List(vec![])]),
            vec![5, 2, 0, 0, 0, 0, 0, 0, 0, 1, 1, 5, 0, 0, 0, 0, 0, 0, 0, 0],
        ),
        (ResolvedValue::Table(vec![]), vec![6, 0, 0, 0, 0, 0, 0, 0, 0]),
    ];
    for (value, bytes) in cases {
        let mut out = vec![9, 9];
        write_value(&mut out, &value);
        assert_eq!(&out[2..], &bytes[..]);
        assert_eq!(read_value(&out, 2), Some((value, out.len())));
        assert_eq!(read_value(&out[..out.len() - 1], 2), None);
    }
    assert_eq!(read_value(&[], 0), None);
    assert_eq!(read_value(&[7, 0], 0), None);
    assert_eq!(read_value(&[5, 1, 0, 0, 0, 0, 0, 0, 0], 0), None);
}

#[test]
fn entry_is_path_position_value() {
    let entry = Entry {
        path: vec!["k".to_string()],
        value: ResolvedValue::Int(1),
        position: Position { start: 2, end: 3 },
    };
    let mut out = Vec::new();
    write_entry(&mut out, &entry);
    assert_eq!(out.len(), 8 + 9 + 16 + 9);
    assert_eq!(read_entry(&out, 0), Some((entry, 42)));
    assert_eq!(read_entry(&out, 1), None);
}

#[test]
fn bytes_are_appended_in_order() {
    let mut out = vec![1, 2];
    append_bytes(&mut out, &[3, 4, 5]);
    append_bytes(&mut out, &[]);
    assert_eq!(out, vec![1, 2, 3, 4, 5]);
}

#[test]
fn numbers_and_booleans_are_written_out() {
    assert_eq!(decimal_string(0), "0");
    assert_eq!(decimal_string(9), "9");
    assert_eq!(decimal_string(10), "10");
    assert_eq!(decimal_string(907), "907");
    assert_eq!(decimal_string(u64::MAX), "18446744073709551615");
    assert_eq!(bool_string(true), "true");
    assert_eq!(bool_string(false), "false");
    let mut out = "n=".to_string();
    push_decimal(&mut out, 42);
    push_text(&mut out, &";".to_string());
    assert_eq!(out, "n=42;");
}
