//! Decoding undoes encoding.
use crate::codec::{
    dec_entries, dec_entry, dec_path, dec_position, dec_text, dec_texts, dec_u64, dec_value,
    dec_values, enc_entries, enc_entry, enc_path, enc_position, enc_text, enc_texts, enc_u64,
    enc_value, enc_values, entries_fit, entry_fits, lemma_entries_fit, lemma_values_fit, path_fits,
    tail, text_fits, value_fits, TAG_BOOL, TAG_INT, TAG_LIST, TAG_PATH, TAG_RAW, TAG_STR,
    TAG_TABLE,
};
use crate::conff::{
    checksum, dec_tree, enc_tree, entries_ok, magic, spec_compile, spec_load, LoadError, VERSION,
};
use crate::position::Position;
use crate::visitor::{ActionTreeView, EntryView, ValueView};
use vstd::bytes::{
    lemma_auto_spec_u32_to_from_le_bytes, lemma_auto_spec_u64_to_from_le_bytes,
    spec_u32_to_le_bytes,
};
use vstd::prelude::*;
use vstd::utf8::{encode_utf8, encode_utf8_decode_utf8, encode_utf8_valid_utf8};

verus! {

/// A tree fits the format if its origin, the number of its entries and each
/// entry do.
pub open spec fn tree_fits(tree: ActionTreeView) -> bool {
    text_fits(tree.origin) && tree.entries.len() <= u64::MAX && entries_fit(
        tree.entries,
        tree.entries.len(),
    )
}

/// An integer that was written is read back, and the bytes after it are left.
pub proof fn lemma_u64_roundtrip(x: u64, rest: Seq<u8>)
    ensures
        dec_u64(enc_u64(x) + rest) == Some((x, rest)),
        enc_u64(x).len() == 8,
{
    lemma_auto_spec_u64_to_from_le_bytes();
    let bytes = enc_u64(x) + rest;
    assert(bytes.subrange(0, 8) =~= enc_u64(x));
    assert(bytes.subrange(8, bytes.len() as int) =~= rest);
}

/// A text that was written is read back.
pub proof fn lemma_text_roundtrip(text: Seq<char>, rest: Seq<u8>)
    requires
        text_fits(text),
    ensures
        dec_text(enc_text(text) + rest) == Some((text, rest)),
{
    let body = encode_utf8(text);
    let after = body + rest;
    lemma_u64_roundtrip(body.len() as u64, after);
    assert(enc_text(text) + rest =~= enc_u64(body.len() as u64) + after);
    assert(after.subrange(0, body.len() as int) =~= body);
    assert(after.subrange(body.len() as int, after.len() as int) =~= rest);
    encode_utf8_valid_utf8(text);
    encode_utf8_decode_utf8(text);
}

/// The first `n` texts are the first text and then the first `n - 1` of the others.
pub proof fn lemma_enc_texts_shift(texts: Seq<Seq<char>>, n: nat)
    requires
        1 <= n <= texts.len(),
    ensures
        enc_texts(texts, n) == enc_text(texts[0]) + enc_texts(texts.drop_first(), (n - 1) as nat),
    decreases n,
{
    let others = texts.drop_first();
    if n == 1 {
        reveal_with_fuel(enc_texts, 2);
        assert(enc_texts(texts, 1) =~= enc_text(texts[0]) + enc_texts(others, 0));
    } else {
        lemma_enc_texts_shift(texts, (n - 1) as nat);
        assert(others[n - 2] == texts[n - 1]);
        assert(enc_texts(texts, n) =~= enc_text(texts[0]) + enc_texts(others, (n - 1) as nat));
    }
}

/// Texts that were written are read back, after those already read.
pub proof fn lemma_texts_roundtrip(texts: Seq<Seq<char>>, rest: Seq<u8>, acc: Seq<Seq<char>>)
    requires
        forall|i: int| 0 <= i < texts.len() ==> text_fits(#[trigger] texts[i]),
    ensures
        dec_texts(enc_texts(texts, texts.len()) + rest, texts.len(), acc) == Some(
            (acc + texts, rest),
        ),
    decreases texts.len(),
{
    if texts.len() == 0 {
        assert(acc + texts =~= acc);
        assert(enc_texts(texts, 0) + rest =~= rest);
    } else {
        let others = texts.drop_first();
        let n = texts.len();
        lemma_enc_texts_shift(texts, n);
        let after = enc_texts(others, others.len()) + rest;
        assert(enc_texts(texts, n) + rest =~= enc_text(texts[0]) + after);
        lemma_text_roundtrip(texts[0], after);
        assert forall|i: int| 0 <= i < others.len() implies text_fits(#[trigger] others[i]) by {
            assert(others[i] == texts[i + 1]);
        }
        lemma_texts_roundtrip(others, rest, acc.push(texts[0]));
        assert(acc.push(texts[0]) + others =~= acc + texts);
    }
}

/// A path that was written is read back.
pub proof fn lemma_path_roundtrip(path: Seq<Seq<char>>, rest: Seq<u8>)
    requires
        path_fits(path),
    ensures
        dec_path(enc_path(path) + rest) == Some((path, rest)),
{
    let after = enc_texts(path, path.len()) + rest;
    lemma_u64_roundtrip(path.len() as u64, after);
    assert(enc_path(path) + rest =~= enc_u64(path.len() as u64) + after);
    lemma_texts_roundtrip(path, rest, Seq::empty());
    assert(Seq::<Seq<char>>::empty() + path =~= path);
}

/// A position that was written is read back.
pub proof fn lemma_position_roundtrip(position: Position, rest: Seq<u8>)
    ensures
        dec_position(enc_position(position) + rest) == Some((position, rest)),
{
    let after = enc_u64(position.end as u64) + rest;
    lemma_u64_roundtrip(position.start as u64, after);
    lemma_u64_roundtrip(position.end as u64, rest);
    assert(enc_position(position) + rest =~= enc_u64(position.start as u64) + after);
}

/// Every value takes at least the byte of its tag.
pub proof fn lemma_enc_value_nonempty(value: ValueView)
    ensures
        enc_value(value).len() >= 1,
{
}

/// The first `n` values are the first value and then the first `n - 1` of the others.
pub proof fn lemma_enc_values_shift(items: Seq<ValueView>, n: nat)
    requires
        1 <= n <= items.len(),
    ensures
        enc_values(items, n) == enc_value(items[0]) + enc_values(
            items.drop_first(),
            (n - 1) as nat,
        ),
    decreases n,
{
    let others = items.drop_first();
    if n == 1 {
        reveal_with_fuel(enc_values, 2);
        assert(enc_values(items, 1) =~= enc_value(items[0]) + enc_values(others, 0));
    } else {
        lemma_enc_values_shift(items, (n - 1) as nat);
        assert(others[n - 2] == items[n - 1]);
        assert(enc_values(items, n) =~= enc_value(items[0]) + enc_values(others, (n - 1) as nat));
    }
}

/// The first `n` entries are the first entry and then the first `n - 1` of the others.
pub proof fn lemma_enc_entries_shift(entries: Seq<EntryView>, n: nat)
    requires
        1 <= n <= entries.len(),
    ensures
        enc_entries(entries, n) == enc_entry(entries[0]) + enc_entries(
            entries.drop_first(),
            (n - 1) as nat,
        ),
    decreases n,
{
    let others = entries.drop_first();
    if n == 1 {
        reveal_with_fuel(enc_entries, 2);
        assert(enc_entries(entries, 1) =~= enc_entry(entries[0]) + enc_entries(others, 0));
    } else {
        lemma_enc_entries_shift(entries, (n - 1) as nat);
        assert(others[n - 2] == entries[n - 1]);
        assert(enc_entries(entries, n) =~= enc_entry(entries[0]) + enc_entries(
            others,
            (n - 1) as nat,
        ));
    }
}

/// A value that was written is read back, whatever it holds and however
/// deeply it is nested.
pub proof fn lemma_value_roundtrip(value: ValueView, rest: Seq<u8>)
    requires
        value_fits(value),
    ensures
        dec_value(enc_value(value) + rest) == Some((value, rest)),
    decreases value, 0nat,
{
    let bytes = enc_value(value) + rest;
    let body = bytes.subrange(1, bytes.len() as int);
    match value {
        ValueView::Int(x) => {
            assert(bytes[0] == TAG_INT);
            assert(body =~= enc_u64(x) + rest);
            lemma_u64_roundtrip(x, rest);
        },
        ValueView::Bool(x) => {
            assert(bytes[0] == TAG_BOOL);
            assert(body.subrange(1, body.len() as int) =~= rest);
        },
        ValueView::Str(x) => {
            assert(bytes[0] == TAG_STR);
            assert(body =~= enc_text(x) + rest);
            lemma_text_roundtrip(x, rest);
        },
        ValueView::Raw(x) => {
            assert(bytes[0] == TAG_RAW);
            assert(body =~= enc_text(x) + rest);
            lemma_text_roundtrip(x, rest);
        },
        ValueView::Path(x) => {
            assert(bytes[0] == TAG_PATH);
            assert(body =~= enc_path(x) + rest);
            lemma_path_roundtrip(x, rest);
        },
        ValueView::List(items) => {
            assert(bytes[0] == TAG_LIST);
            let after = enc_values(items, items.len()) + rest;
            assert(body =~= enc_u64(items.len() as u64) + after);
            lemma_u64_roundtrip(items.len() as u64, after);
            lemma_values_fit(items, items.len());
            lemma_values_roundtrip(items, rest, Seq::empty());
            assert(Seq::<ValueView>::empty() + items =~= items);
        },
        ValueView::Table(entries) => {
            assert(bytes[0] == TAG_TABLE);
            let after = enc_entries(entries, entries.len()) + rest;
            assert(body =~= enc_u64(entries.len() as u64) + after);
            lemma_u64_roundtrip(entries.len() as u64, after);
            lemma_entries_fit(entries, entries.len());
            lemma_entries_roundtrip(entries, rest, Seq::empty());
            assert(Seq::<EntryView>::empty() + entries =~= entries);
        },
    }
}

/// Values that were written are read back, after those already read.
pub proof fn lemma_values_roundtrip(items: Seq<ValueView>, rest: Seq<u8>, acc: Seq<ValueView>)
    requires
        forall|i: int| 0 <= i < items.len() ==> value_fits(#[trigger] items[i]),
    ensures
        dec_values(enc_values(items, items.len()) + rest, items.len(), acc) == Some(
            (acc + items, rest),
        ),
    decreases items, 0nat,
{
    if items.len() == 0 {
        assert(acc + items =~= acc);
        assert(enc_values(items, 0) + rest =~= rest);
    } else {
        let others = items.drop_first();
        let n = items.len();
        lemma_enc_values_shift(items, n);
        let after = enc_values(others, others.len()) + rest;
        assert(enc_values(items, n) + rest =~= enc_value(items[0]) + after);
        lemma_enc_value_nonempty(items[0]);
        lemma_value_roundtrip(items[0], after);
        assert forall|i: int| 0 <= i < others.len() implies value_fits(#[trigger] others[i]) by {
            assert(others[i] == items[i + 1]);
        }
        vstd::seq::axiom_seq_subrange_decreases(items, 1, items.len() as int);
        lemma_values_roundtrip(others, rest, acc.push(items[0]));
        assert(acc.push(items[0]) + others =~= acc + items);
    }
}

/// An entry that was written is read back.
pub proof fn lemma_entry_roundtrip(entry: EntryView, rest: Seq<u8>)
    requires
        entry_fits(entry),
    ensures
        dec_entry(enc_entry(entry) + rest) == Some((entry, rest)),
        enc_entry(entry).len() >= 1,
    decreases entry, 0nat,
{
    let after_value = enc_value(entry.value) + rest;
    let after_position = enc_position(entry.position) + after_value;
    assert(enc_entry(entry) + rest =~= enc_path(entry.path) + after_position);
    lemma_path_roundtrip(entry.path, after_position);
    lemma_position_roundtrip(entry.position, after_value);
    lemma_value_roundtrip(entry.value, rest);
    lemma_enc_value_nonempty(entry.value);
}

/// Entries that were written are read back, after those already read.
pub proof fn lemma_entries_roundtrip(entries: Seq<EntryView>, rest: Seq<u8>, acc: Seq<EntryView>)
    requires
        forall|i: int| 0 <= i < entries.len() ==> entry_fits(#[trigger] entries[i]),
    ensures
        dec_entries(enc_entries(entries, entries.len()) + rest, entries.len(), acc) == Some(
            (acc + entries, rest),
        ),
    decreases entries, 0nat,
{
    if entries.len() == 0 {
        assert(acc + entries =~= acc);
        assert(enc_entries(entries, 0) + rest =~= rest);
    } else {
        let others = entries.drop_first();
        let n = entries.len();
        lemma_enc_entries_shift(entries, n);
        let after = enc_entries(others, others.len()) + rest;
        assert(enc_entries(entries, n) + rest =~= enc_entry(entries[0]) + after);
        lemma_entry_roundtrip(entries[0], after);
        assert forall|i: int| 0 <= i < others.len() implies entry_fits(#[trigger] others[i]) by {
            assert(others[i] == entries[i + 1]);
        }
        vstd::seq::axiom_seq_subrange_decreases(entries, 1, entries.len() as int);
        lemma_entries_roundtrip(others, rest, acc.push(entries[0]));
        assert(acc.push(entries[0]) + others =~= acc + entries);
    }
}

/// The contents of a tree that were written are read back.
pub proof fn lemma_tree_roundtrip(tree: ActionTreeView)
    requires
        tree_fits(tree),
    ensures
        dec_tree(enc_tree(tree)) == Some(tree),
{
    let n = tree.entries.len();
    let after_count = enc_entries(tree.entries, n) + Seq::<u8>::empty();
    let after_origin = enc_u64(n as u64) + after_count;
    assert(enc_tree(tree) =~= enc_text(tree.origin) + after_origin);
    lemma_text_roundtrip(tree.origin, after_origin);
    lemma_u64_roundtrip(n as u64, after_count);
    lemma_entries_fit(tree.entries, n);
    lemma_entries_roundtrip(tree.entries, Seq::empty(), Seq::empty());
    assert(Seq::<EntryView>::empty() + tree.entries =~= tree.entries);
}

/// An artifact with the right magic bytes, version and checksum is loaded by
/// reading what stands between the version and the checksum.
pub proof fn lemma_load_framed(body: Seq<u8>)
    ensures
        ({
            let payload = magic() + seq![VERSION] + body;
            let bytes = payload + spec_u32_to_le_bytes(checksum(payload));
            spec_load(bytes) == match dec_tree(body) {
                Some(tree) => if entries_ok(tree.entries) {
                    Ok::<ActionTreeView, LoadError>(tree)
                } else {
                    Err(LoadError::Malformed)
                },
                None => Err(LoadError::Malformed),
            }
        }),
{
    lemma_auto_spec_u32_to_from_le_bytes();
    let payload = magic() + seq![VERSION] + body;
    let sum = spec_u32_to_le_bytes(checksum(payload));
    let bytes = payload + sum;
    assert(sum.len() == 4);
    assert(bytes.subrange(0, 4) =~= magic());
    assert(bytes[4] == VERSION);
    assert(bytes.subrange(0, bytes.len() - 4) =~= payload);
    assert(bytes.subrange(bytes.len() - 4, bytes.len() as int) =~= sum);
    assert(tail(payload, 5) =~= body);
}

/// Round trip. Loading the artifact that a tree compiles to yields the same
/// tree: its origin and every entry, with its path, its position and its
/// value, lists, tables and path references included, at every depth.
pub proof fn lemma_compile_load_roundtrip(tree: ActionTreeView)
    requires
        tree_fits(tree),
        entries_ok(tree.entries),
    ensures
        spec_load(spec_compile(tree)) == Ok::<ActionTreeView, LoadError>(tree),
{
    lemma_tree_roundtrip(tree);
    lemma_load_framed(enc_tree(tree));
}

} // verus!
