//! The byte format of resolved entries.
//!
//! Integers are 64-bit little-endian. A text is its length in bytes and then
//! its UTF-8 bytes. A path is its number of segments and then each segment as
//! a text. A position is its two offsets. A value is a one-byte tag and a
//! payload that depends on the tag; lists and tables carry the number of
//! their children and then each child. An entry is its path, its position
//! and its value.
use crate::views::lemma_push_deep_view;
use crate::position::Position;
use crate::visitor::{
    lemma_list_view, lemma_table_view, Entry, EntryView, ResolvedValue, ValueView,
};
use vstd::bytes::{
    spec_u64_from_le_bytes, spec_u64_to_le_bytes, u64_from_le_bytes, u64_to_le_bytes,
};
use vstd::prelude::*;
use vstd::slice::{slice_subrange, slice_to_vec};
use vstd::utf8::{decode_utf8, encode_utf8, valid_utf8};

verus! {

/// The tag of an integer value.
pub const TAG_INT: u8 = 0;

/// The tag of a boolean value.
pub const TAG_BOOL: u8 = 1;

/// The tag of a string value.
pub const TAG_STR: u8 = 2;

/// The tag of a verbatim value.
pub const TAG_RAW: u8 = 3;

/// The tag of a path reference.
pub const TAG_PATH: u8 = 4;

/// The tag of a list.
pub const TAG_LIST: u8 = 5;

/// The tag of a table.
pub const TAG_TABLE: u8 = 6;

/// The eight bytes of `x`, least significant first.
pub open spec fn enc_u64(x: u64) -> Seq<u8> {
    spec_u64_to_le_bytes(x)
}

/// Reads eight bytes as an integer; yields it and the bytes that follow.
pub open spec fn dec_u64(bytes: Seq<u8>) -> Option<(u64, Seq<u8>)> {
    if bytes.len() >= 8 {
        Some((spec_u64_from_le_bytes(bytes.subrange(0, 8)), bytes.subrange(8, bytes.len() as int)))
    } else {
        None
    }
}

/// A text: the length of its UTF-8 encoding, then the encoding.
pub open spec fn enc_text(text: Seq<char>) -> Seq<u8> {
    enc_u64(encode_utf8(text).len() as u64) + encode_utf8(text)
}

/// Reads a text: a length, then that many bytes, which have to be valid UTF-8.
pub open spec fn dec_text(bytes: Seq<u8>) -> Option<(Seq<char>, Seq<u8>)> {
    match dec_u64(bytes) {
        Some((n, rest)) => {
            if n <= rest.len() && valid_utf8(rest.subrange(0, n as int)) {
                Some(
                    (
                        decode_utf8(rest.subrange(0, n as int)),
                        rest.subrange(n as int, rest.len() as int),
                    ),
                )
            } else {
                None
            }
        },
        None => None,
    }
}

/// The first `n` texts of `texts`, one after the other.
pub open spec fn enc_texts(texts: Seq<Seq<char>>, n: nat) -> Seq<u8>
    decreases n,
{
    if n == 0 || n > texts.len() {
        Seq::empty()
    } else {
        enc_texts(texts, (n - 1) as nat) + enc_text(texts[n - 1])
    }
}

/// Reads `count` texts, after the texts `acc` that were already read.
pub open spec fn dec_texts(bytes: Seq<u8>, count: nat, acc: Seq<Seq<char>>) -> Option<
    (Seq<Seq<char>>, Seq<u8>),
>
    decreases count,
{
    if count == 0 {
        Some((acc, bytes))
    } else {
        match dec_text(bytes) {
            Some((text, rest)) => dec_texts(rest, (count - 1) as nat, acc.push(text)),
            None => None,
        }
    }
}

/// A path: the number of its segments, then each segment.
pub open spec fn enc_path(path: Seq<Seq<char>>) -> Seq<u8> {
    enc_u64(path.len() as u64) + enc_texts(path, path.len())
}

/// Reads a path.
pub open spec fn dec_path(bytes: Seq<u8>) -> Option<(Seq<Seq<char>>, Seq<u8>)> {
    match dec_u64(bytes) {
        Some((n, rest)) => dec_texts(rest, n as nat, Seq::empty()),
        None => None,
    }
}

/// A position: its start, then its end.
pub open spec fn enc_position(position: Position) -> Seq<u8> {
    enc_u64(position.start as u64) + enc_u64(position.end as u64)
}

/// Reads a position. Offsets that do not fit the machine's word are refused.
pub open spec fn dec_position(bytes: Seq<u8>) -> Option<(Position, Seq<u8>)> {
    match dec_u64(bytes) {
        Some((start, rest)) => match dec_u64(rest) {
            Some((end, after)) => {
                if start <= usize::MAX && end <= usize::MAX {
                    Some((Position { start: start as usize, end: end as usize }, after))
                } else {
                    None
                }
            },
            None => None,
        },
        None => None,
    }
}

/// A value: its tag, then its payload.
pub open spec fn enc_value(value: ValueView) -> Seq<u8>
    decreases value, 0nat,
{
    match value {
        ValueView::Int(x) => seq![TAG_INT] + enc_u64(x),
        ValueView::Bool(x) => seq![
            TAG_BOOL,
            if x {
                1u8
            } else {
                0u8
            },
        ],
        ValueView::Str(x) => seq![TAG_STR] + enc_text(x),
        ValueView::Raw(x) => seq![TAG_RAW] + enc_text(x),
        ValueView::Path(x) => seq![TAG_PATH] + enc_path(x),
        ValueView::List(items) => seq![TAG_LIST] + enc_u64(items.len() as u64) + enc_values(
            items,
            items.len(),
        ),
        ValueView::Table(entries) => seq![TAG_TABLE] + enc_u64(entries.len() as u64)
            + enc_entries(entries, entries.len()),
    }
}

/// The first `n` values of `items`, one after the other.
pub open spec fn enc_values(items: Seq<ValueView>, n: nat) -> Seq<u8>
    decreases items, n,
{
    if n == 0 || n > items.len() {
        Seq::empty()
    } else {
        enc_values(items, (n - 1) as nat) + enc_value(items[n - 1])
    }
}

/// An entry: its path, its position, its value.
pub open spec fn enc_entry(entry: EntryView) -> Seq<u8>
    decreases entry, 0nat,
{
    enc_path(entry.path) + enc_position(entry.position) + enc_value(entry.value)
}

/// The first `n` entries of `entries`, one after the other.
pub open spec fn enc_entries(entries: Seq<EntryView>, n: nat) -> Seq<u8>
    decreases entries, n,
{
    if n == 0 || n > entries.len() {
        Seq::empty()
    } else {
        enc_entries(entries, (n - 1) as nat) + enc_entry(entries[n - 1])
    }
}

/// Reading texts never yields more bytes than it was given.
pub proof fn lemma_dec_texts_shrinks(bytes: Seq<u8>, count: nat, acc: Seq<Seq<char>>)
    ensures
        dec_texts(bytes, count, acc) matches Some((_, rest)) ==> rest.len() <= bytes.len(),
    decreases count,
{
    if count > 0 {
        match dec_text(bytes) {
            Some((text, rest)) => lemma_dec_texts_shrinks(rest, (count - 1) as nat, acc.push(text)),
            None => {},
        }
    }
}

/// A path takes at least the eight bytes of its length.
pub proof fn lemma_dec_path_shrinks(bytes: Seq<u8>)
    ensures
        dec_path(bytes) matches Some((_, rest)) ==> rest.len() + 8 <= bytes.len(),
{
    match dec_u64(bytes) {
        Some((n, rest)) => lemma_dec_texts_shrinks(rest, n as nat, Seq::empty()),
        None => {},
    }
}

/// Reads a value: a tag, then the payload that the tag calls for. An unknown
/// tag, a boolean byte other than 0 or 1, or a payload that is cut short is
/// refused.
pub open spec fn dec_value(bytes: Seq<u8>) -> Option<(ValueView, Seq<u8>)>
    decreases bytes.len(), 0nat,
{
    if bytes.len() == 0 {
        None
    } else {
        let tag = bytes[0];
        let body = bytes.subrange(1, bytes.len() as int);
        if tag == TAG_INT {
            match dec_u64(body) {
                Some((x, rest)) => Some((ValueView::Int(x), rest)),
                None => None,
            }
        } else if tag == TAG_BOOL {
            if body.len() >= 1 && body[0] <= 1 {
                Some((ValueView::Bool(body[0] == 1), body.subrange(1, body.len() as int)))
            } else {
                None
            }
        } else if tag == TAG_STR {
            match dec_text(body) {
                Some((x, rest)) => Some((ValueView::Str(x), rest)),
                None => None,
            }
        } else if tag == TAG_RAW {
            match dec_text(body) {
                Some((x, rest)) => Some((ValueView::Raw(x), rest)),
                None => None,
            }
        } else if tag == TAG_PATH {
            match dec_path(body) {
                Some((x, rest)) => Some((ValueView::Path(x), rest)),
                None => None,
            }
        } else if tag == TAG_LIST {
            match dec_u64(body) {
                Some((n, rest)) => match dec_values(rest, n as nat, Seq::empty()) {
                    Some((items, after)) => Some((ValueView::List(items), after)),
                    None => None,
                },
                None => None,
            }
        } else if tag == TAG_TABLE {
            match dec_u64(body) {
                Some((n, rest)) => match dec_entries(rest, n as nat, Seq::empty()) {
                    Some((entries, after)) => Some((ValueView::Table(entries), after)),
                    None => None,
                },
                None => None,
            }
        } else {
            None
        }
    }
}

/// Reads `count` values, after the values `acc` that were already read.
/// Every value takes at least one byte.
pub open spec fn dec_values(bytes: Seq<u8>, count: nat, acc: Seq<ValueView>) -> Option<
    (Seq<ValueView>, Seq<u8>),
>
    decreases bytes.len(), count,
{
    if count == 0 {
        Some((acc, bytes))
    } else {
        match dec_value(bytes) {
            Some((value, rest)) => {
                if rest.len() < bytes.len() {
                    dec_values(rest, (count - 1) as nat, acc.push(value))
                } else {
                    None
                }
            },
            None => None,
        }
    }
}

/// Reads an entry: a path, a position, a value.
pub open spec fn dec_entry(bytes: Seq<u8>) -> Option<(EntryView, Seq<u8>)>
    decreases bytes.len(), 0nat,
{
    match dec_path(bytes) {
        Some((path, rest)) => match dec_position(rest) {
            Some((position, after)) => {
                proof {
                    lemma_dec_path_shrinks(bytes);
                }
                match dec_value(after) {
                    Some((value, last)) => Some((EntryView { path, value, position }, last)),
                    None => None,
                }
            },
            None => None,
        },
        None => None,
    }
}

/// Reads `count` entries, after the entries `acc` that were already read.
/// Every entry takes at least one byte.
pub open spec fn dec_entries(bytes: Seq<u8>, count: nat, acc: Seq<EntryView>) -> Option<
    (Seq<EntryView>, Seq<u8>),
>
    decreases bytes.len(), count,
{
    if count == 0 {
        Some((acc, bytes))
    } else {
        match dec_entry(bytes) {
            Some((entry, rest)) => {
                if rest.len() < bytes.len() {
                    dec_entries(rest, (count - 1) as nat, acc.push(entry))
                } else {
                    None
                }
            },
            None => None,
        }
    }
}

/// A text fits the format if the length of its UTF-8 encoding fits in 64 bits.
pub open spec fn text_fits(text: Seq<char>) -> bool {
    encode_utf8(text).len() <= u64::MAX
}

/// A path fits the format if its length and each of its segments do.
pub open spec fn path_fits(path: Seq<Seq<char>>) -> bool {
    path.len() <= u64::MAX && forall|i: int| 0 <= i < path.len() ==> text_fits(#[trigger] path[i])
}

/// A value fits the format if every text and every count in it does.
pub open spec fn value_fits(value: ValueView) -> bool
    decreases value, 0nat,
{
    match value {
        ValueView::Int(_) => true,
        ValueView::Bool(_) => true,
        ValueView::Str(x) => text_fits(x),
        ValueView::Raw(x) => text_fits(x),
        ValueView::Path(x) => path_fits(x),
        ValueView::List(items) => items.len() <= u64::MAX && values_fit(items, items.len()),
        ValueView::Table(entries) => entries.len() <= u64::MAX && entries_fit(
            entries,
            entries.len(),
        ),
    }
}

/// Whether the first `n` values of `items` fit the format.
pub open spec fn values_fit(items: Seq<ValueView>, n: nat) -> bool
    decreases items, n,
{
    if n == 0 || n > items.len() {
        true
    } else {
        values_fit(items, (n - 1) as nat) && value_fits(items[n - 1])
    }
}

/// An entry fits the format if its path and its value do.
pub open spec fn entry_fits(entry: EntryView) -> bool
    decreases entry, 0nat,
{
    path_fits(entry.path) && value_fits(entry.value)
}

/// Whether the first `n` entries of `entries` fit the format.
pub open spec fn entries_fit(entries: Seq<EntryView>, n: nat) -> bool
    decreases entries, n,
{
    if n == 0 || n > entries.len() {
        true
    } else {
        entries_fit(entries, (n - 1) as nat) && entry_fits(entries[n - 1])
    }
}

/// The first `n` values fit exactly if each of them does.
pub proof fn lemma_values_fit(items: Seq<ValueView>, n: nat)
    requires
        n <= items.len(),
    ensures
        values_fit(items, n) <==> (forall|k: int| 0 <= k < n ==> value_fits(#[trigger] items[k])),
    decreases n,
{
    if n > 0 {
        lemma_values_fit(items, (n - 1) as nat);
    }
}

/// The first `n` entries fit exactly if each of them does.
pub proof fn lemma_entries_fit(entries: Seq<EntryView>, n: nat)
    requires
        n <= entries.len(),
    ensures
        entries_fit(entries, n) <==> (forall|k: int|
            0 <= k < n ==> entry_fits(#[trigger] entries[k])),
    decreases n,
{
    if n > 0 {
        lemma_entries_fit(entries, (n - 1) as nat);
    }
}

/// Appends `bytes` to `out`.
pub fn append_bytes(out: &mut Vec<u8>, bytes: &[u8])
    ensures
        final(out)@ == old(out)@ + bytes@,
{
    let mut i: usize = 0;
    while i < bytes.len()
        invariant
            i <= bytes@.len(),
            out@ == old(out)@ + bytes@.subrange(0, i as int),
        decreases bytes@.len() - i,
    {
        out.push(bytes[i]);
        i += 1;
        assert(out@ =~= old(out)@ + bytes@.subrange(0, i as int));
    }
    assert(bytes@.subrange(0, i as int) =~= bytes@);
}

/// Appends the eight bytes of `x`.
pub fn write_u64(out: &mut Vec<u8>, x: u64)
    ensures
        final(out)@ == old(out)@ + enc_u64(x),
{
    let bytes = u64_to_le_bytes(x);
    append_bytes(out, bytes.as_slice());
}

/// Appends the text `text`.
pub fn write_text(out: &mut Vec<u8>, text: &String)
    ensures
        final(out)@ == old(out)@ + enc_text(text@),
        text_fits(text@),
{
    let bytes = text.as_str().as_bytes();
    write_u64(out, bytes.len() as u64);
    append_bytes(out, bytes);
    assert(out@ =~= old(out)@ + enc_text(text@));
}

/// Appends the path `path`.
pub fn write_path(out: &mut Vec<u8>, path: &Vec<String>)
    ensures
        final(out)@ == old(out)@ + enc_path(path.deep_view()),
        path_fits(path.deep_view()),
{
    write_u64(out, path.len() as u64);
    let ghost start = out@;
    let mut i: usize = 0;
    assert(out@ =~= start + enc_texts(path.deep_view(), 0));
    while i < path.len()
        invariant
            i <= path@.len(),
            start == old(out)@ + enc_u64(path@.len() as u64),
            out@ == start + enc_texts(path.deep_view(), i as nat),
            forall|k: int| 0 <= k < i ==> text_fits(#[trigger] path.deep_view()[k]),
        decreases path@.len() - i,
    {
        write_text(out, &path[i]);
        i += 1;
        assert(out@ =~= start + enc_texts(path.deep_view(), i as nat));
    }
    assert(out@ =~= old(out)@ + enc_path(path.deep_view()));
}

/// Appends the position `position`.
pub fn write_position(out: &mut Vec<u8>, position: Position)
    ensures
        final(out)@ == old(out)@ + enc_position(position),
{
    write_u64(out, position.start as u64);
    write_u64(out, position.end as u64);
    assert(out@ =~= old(out)@ + enc_position(position));
}

/// Appends the value `value`.
pub fn write_value(out: &mut Vec<u8>, value: &ResolvedValue)
    ensures
        final(out)@ == old(out)@ + enc_value(value.deep_view()),
        value_fits(value.deep_view()),
    decreases value, 0nat,
{
    match value {
        ResolvedValue::Int(x) => {
            out.push(TAG_INT);
            write_u64(out, *x);
            assert(out@ =~= old(out)@ + enc_value(value.deep_view()));
        },
        ResolvedValue::Bool(x) => {
            out.push(TAG_BOOL);
            out.push(
                if *x {
                    1u8
                } else {
                    0u8
                },
            );
            assert(out@ =~= old(out)@ + enc_value(value.deep_view()));
        },
        ResolvedValue::Str(x) => {
            out.push(TAG_STR);
            write_text(out, x);
            assert(out@ =~= old(out)@ + enc_value(value.deep_view()));
        },
        ResolvedValue::Raw(x) => {
            out.push(TAG_RAW);
            write_text(out, x);
            assert(out@ =~= old(out)@ + enc_value(value.deep_view()));
        },
        ResolvedValue::Path(x) => {
            out.push(TAG_PATH);
            write_path(out, x);
            assert(out@ =~= old(out)@ + enc_value(value.deep_view()));
        },
        ResolvedValue::List(items) => {
            out.push(TAG_LIST);
            write_u64(out, items.len() as u64);
            let ghost start = out@;
            let mut i: usize = 0;
            assert(out@ =~= start + enc_values(items.deep_view(), 0));
            while i < items.len()
                invariant
                    i <= items@.len(),
                    decreases_to!(value => items),
                    out@ == start + enc_values(items.deep_view(), i as nat),
                    values_fit(items.deep_view(), i as nat),
                decreases items@.len() - i,
            {
                proof {
                    vstd::std_specs::vec::axiom_vec_index_decreases(*items, i as int);
                    assert(decreases_to!(*items => items[i as int]));
                }
                write_value(out, &items[i]);
                i += 1;
                assert(out@ =~= start + enc_values(items.deep_view(), i as nat));
            }
            proof {
                lemma_list_view(*items);
                assert(out@ =~= old(out)@ + enc_value(value.deep_view()));
            }
        },
        ResolvedValue::Table(entries) => {
            out.push(TAG_TABLE);
            write_u64(out, entries.len() as u64);
            let ghost start = out@;
            let mut i: usize = 0;
            assert(out@ =~= start + enc_entries(entries.deep_view(), 0));
            while i < entries.len()
                invariant
                    i <= entries@.len(),
                    decreases_to!(value => entries),
                    out@ == start + enc_entries(entries.deep_view(), i as nat),
                    entries_fit(entries.deep_view(), i as nat),
                decreases entries@.len() - i,
            {
                proof {
                    vstd::std_specs::vec::axiom_vec_index_decreases(*entries, i as int);
                    assert(decreases_to!(*entries => entries[i as int]));
                }
                write_entry(out, &entries[i]);
                i += 1;
                assert(out@ =~= start + enc_entries(entries.deep_view(), i as nat));
            }
            proof {
                lemma_table_view(*entries);
                assert(out@ =~= old(out)@ + enc_value(value.deep_view()));
            }
        },
    }
}

/// Appends the entry `entry`.
pub fn write_entry(out: &mut Vec<u8>, entry: &Entry)
    ensures
        final(out)@ == old(out)@ + enc_entry(entry.deep_view()),
        entry_fits(entry.deep_view()),
    decreases entry, 0nat,
{
    write_path(out, &entry.path);
    write_position(out, entry.position);
    write_value(out, &entry.value);
    assert(out@ =~= old(out)@ + enc_entry(entry.deep_view()));
}

/// Appends the entries `entries`, in order.
pub fn write_entries(out: &mut Vec<u8>, entries: &Vec<Entry>)
    ensures
        final(out)@ == old(out)@ + enc_entries(entries.deep_view(), entries@.len()),
        entries@.len() <= u64::MAX,
        entries_fit(entries.deep_view(), entries@.len()),
{
    let mut i: usize = 0;
    assert(out@ =~= old(out)@ + enc_entries(entries.deep_view(), 0));
    while i < entries.len()
        invariant
            i <= entries@.len(),
            out@ == old(out)@ + enc_entries(entries.deep_view(), i as nat),
            entries_fit(entries.deep_view(), i as nat),
        decreases entries@.len() - i,
    {
        write_entry(out, &entries[i]);
        i += 1;
        assert(out@ =~= old(out)@ + enc_entries(entries.deep_view(), i as nat));
    }
}

/// The bytes of `bytes` from offset `i` on.
pub open spec fn tail(bytes: Seq<u8>, i: int) -> Seq<u8> {
    bytes.subrange(i, bytes.len() as int)
}

/// Calls `String::from_utf8` of the standard library. Its contract is taken
/// on trust from the library's documentation, not proved: the call yields a
/// string exactly when the bytes are valid UTF-8, and the string is then the
/// text that the bytes encode; otherwise it yields nothing.
#[verifier::external_body]
fn string_from_utf8(bytes: Vec<u8>) -> (r: Option<String>)
    ensures
        match r {
            Some(s) => valid_utf8(bytes@) && s@ == decode_utf8(bytes@),
            None => !valid_utf8(bytes@),
        },
{
    match String::from_utf8(bytes) {
        Ok(s) => Some(s),
        Err(_) => None,
    }
}

/// Reads an integer at offset `i`.
pub fn read_u64(bytes: &[u8], i: usize) -> (r: Option<(u64, usize)>)
    requires
        i <= bytes@.len(),
    ensures
        match dec_u64(tail(bytes@, i as int)) {
            Some((x, rest)) => r matches Some((y, j)) && y == x && j == i + 8 && j <= bytes@.len()
                && tail(bytes@, j as int) == rest,
            None => r is None,
        },
{
    let n: usize = bytes.len();
    if n - i < 8 {
        return None;
    }
    let x = u64_from_le_bytes(slice_subrange(bytes, i, i + 8));
    proof {
        assert(tail(bytes@, i as int).subrange(0, 8) =~= bytes@.subrange(i as int, i + 8));
        assert(tail(bytes@, i as int).subrange(8, n - i) =~= tail(bytes@, i + 8));
    }
    Some((x, i + 8))
}

/// Reads a text at offset `i`.
pub fn read_text(bytes: &[u8], i: usize) -> (r: Option<(String, usize)>)
    requires
        i <= bytes@.len(),
    ensures
        match dec_text(tail(bytes@, i as int)) {
            Some((text, rest)) => r matches Some((s, j)) && s@ == text && i + 8 <= j
                <= bytes@.len() && tail(bytes@, j as int) == rest,
            None => r is None,
        },
{
    let n: usize = bytes.len();
    let (len, j) = match read_u64(bytes, i) {
        Some(x) => x,
        None => {
            return None;
        },
    };
    if len > (n - j) as u64 {
        return None;
    }
    let m: usize = len as usize;
    let raw = slice_to_vec(slice_subrange(bytes, j, j + m));
    proof {
        let rest = tail(bytes@, j as int);
        assert(rest.subrange(0, len as int) =~= bytes@.subrange(j as int, j + m));
        assert(rest.subrange(len as int, rest.len() as int) =~= tail(bytes@, j + m));
    }
    match string_from_utf8(raw) {
        Some(s) => Some((s, j + m)),
        None => None,
    }
}

/// Reads `count` texts at offset `i`.
pub fn read_texts(bytes: &[u8], i: usize, count: u64) -> (r: Option<(Vec<String>, usize)>)
    requires
        i <= bytes@.len(),
    ensures
        match dec_texts(tail(bytes@, i as int), count as nat, Seq::empty()) {
            Some((texts, rest)) => r matches Some((v, j)) && v.deep_view() == texts && i <= j
                <= bytes@.len() && tail(bytes@, j as int) == rest,
            None => r is None,
        },
{
    let mut texts: Vec<String> = Vec::new();
    let mut k: usize = i;
    let mut done: u64 = 0;
    assert(texts.deep_view() =~= Seq::<Seq<char>>::empty());
    while done < count
        invariant
            done <= count,
            i <= k <= bytes@.len(),
            dec_texts(tail(bytes@, i as int), count as nat, Seq::empty()) == dec_texts(
                tail(bytes@, k as int),
                (count - done) as nat,
                texts.deep_view(),
            ),
        decreases count - done,
    {
        match read_text(bytes, k) {
            Some((text, next)) => {
                let ghost before = texts;
                let ghost pushed = text;
                texts.push(text);
                proof {
                    lemma_push_deep_view(before, texts, pushed);
                }
                k = next;
                done += 1;
            },
            None => {
                return None;
            },
        }
    }
    Some((texts, k))
}

/// Reads a path at offset `i`.
pub fn read_path(bytes: &[u8], i: usize) -> (r: Option<(Vec<String>, usize)>)
    requires
        i <= bytes@.len(),
    ensures
        match dec_path(tail(bytes@, i as int)) {
            Some((path, rest)) => r matches Some((v, j)) && v.deep_view() == path && i + 8 <= j
                <= bytes@.len() && tail(bytes@, j as int) == rest,
            None => r is None,
        },
{
    match read_u64(bytes, i) {
        Some((count, j)) => read_texts(bytes, j, count),
        None => None,
    }
}

/// Reads a position at offset `i`.
pub fn read_position(bytes: &[u8], i: usize) -> (r: Option<(Position, usize)>)
    requires
        i <= bytes@.len(),
    ensures
        match dec_position(tail(bytes@, i as int)) {
            Some((position, rest)) => r matches Some((p, j)) && p == position && j == i + 16 && j
                <= bytes@.len() && tail(bytes@, j as int) == rest,
            None => r is None,
        },
{
    let (start, j) = match read_u64(bytes, i) {
        Some(x) => x,
        None => {
            return None;
        },
    };
    let (end, k) = match read_u64(bytes, j) {
        Some(x) => x,
        None => {
            return None;
        },
    };
    if start > usize::MAX as u64 || end > usize::MAX as u64 {
        return None;
    }
    Some((Position { start: start as usize, end: end as usize }, k))
}

/// Reads a value at offset `i`.
pub fn read_value(bytes: &[u8], i: usize) -> (r: Option<(ResolvedValue, usize)>)
    requires
        i <= bytes@.len(),
    ensures
        match dec_value(tail(bytes@, i as int)) {
            Some((value, rest)) => r matches Some((v, j)) && v.deep_view() == value && i < j
                <= bytes@.len() && tail(bytes@, j as int) == rest,
            None => r is None,
        },
    decreases bytes@.len() - i, 0nat,
{
    let n: usize = bytes.len();
    if i >= n {
        return None;
    }
    let tag = bytes[i];
    proof {
        let whole = tail(bytes@, i as int);
        assert(whole[0] == bytes@[i as int]);
        assert(whole.subrange(1, whole.len() as int) =~= tail(bytes@, i + 1));
    }
    if tag == TAG_INT {
        match read_u64(bytes, i + 1) {
            Some((x, j)) => Some((ResolvedValue::Int(x), j)),
            None => None,
        }
    } else if tag == TAG_BOOL {
        if i + 1 < n && bytes[i + 1] <= 1 {
            proof {
                let body = tail(bytes@, i + 1);
                assert(body[0] == bytes@[i + 1]);
                assert(body.subrange(1, body.len() as int) =~= tail(bytes@, i + 2));
            }
            Some((ResolvedValue::Bool(bytes[i + 1] == 1), i + 2))
        } else {
            proof {
                let body = tail(bytes@, i + 1);
                if body.len() >= 1 {
                    assert(body[0] == bytes@[i + 1]);
                }
            }
            None
        }
    } else if tag == TAG_STR {
        match read_text(bytes, i + 1) {
            Some((x, j)) => Some((ResolvedValue::Str(x), j)),
            None => None,
        }
    } else if tag == TAG_RAW {
        match read_text(bytes, i + 1) {
            Some((x, j)) => Some((ResolvedValue::Raw(x), j)),
            None => None,
        }
    } else if tag == TAG_PATH {
        match read_path(bytes, i + 1) {
            Some((x, j)) => Some((ResolvedValue::Path(x), j)),
            None => None,
        }
    } else if tag == TAG_LIST {
        let (count, j) = match read_u64(bytes, i + 1) {
            Some(x) => x,
            None => {
                return None;
            },
        };
        let mut items: Vec<ResolvedValue> = Vec::new();
        let mut k: usize = j;
        let mut done: u64 = 0;
        assert(items.deep_view() =~= Seq::<ValueView>::empty());
        while done < count
            invariant
                done <= count,
                i < j <= k <= bytes@.len(),
                dec_value(tail(bytes@, i as int)) == (match dec_values(
                    tail(bytes@, j as int),
                    count as nat,
                    Seq::empty(),
                ) {
                    Some((items, after)) => Some((ValueView::List(items), after)),
                    None => None,
                }),
                dec_values(tail(bytes@, j as int), count as nat, Seq::empty()) == dec_values(
                    tail(bytes@, k as int),
                    (count - done) as nat,
                    items.deep_view(),
                ),
            decreases count - done,
        {
            match read_value(bytes, k) {
                Some((item, next)) => {
                    let ghost before = items;
                    let ghost pushed = item;
                    items.push(item);
                    proof {
                        lemma_push_deep_view(before, items, pushed);
                    }
                    k = next;
                    done += 1;
                },
                None => {
                    return None;
                },
            }
        }
        proof {
            lemma_list_view(items);
        }
        Some((ResolvedValue::List(items), k))
    } else if tag == TAG_TABLE {
        let (count, j) = match read_u64(bytes, i + 1) {
            Some(x) => x,
            None => {
                return None;
            },
        };
        let mut entries: Vec<Entry> = Vec::new();
        let mut k: usize = j;
        let mut done: u64 = 0;
        assert(entries.deep_view() =~= Seq::<EntryView>::empty());
        while done < count
            invariant
                done <= count,
                i < j <= k <= bytes@.len(),
                dec_value(tail(bytes@, i as int)) == (match dec_entries(
                    tail(bytes@, j as int),
                    count as nat,
                    Seq::empty(),
                ) {
                    Some((entries, after)) => Some((ValueView::Table(entries), after)),
                    None => None,
                }),
                dec_entries(tail(bytes@, j as int), count as nat, Seq::empty()) == dec_entries(
                    tail(bytes@, k as int),
                    (count - done) as nat,
                    entries.deep_view(),
                ),
            decreases count - done,
        {
            match read_entry(bytes, k) {
                Some((entry, next)) => {
                    let ghost before = entries;
                    let ghost pushed = entry;
                    entries.push(entry);
                    proof {
                        lemma_push_deep_view(before, entries, pushed);
                    }
                    k = next;
                    done += 1;
                },
                None => {
                    return None;
                },
            }
        }
        proof {
            lemma_table_view(entries);
        }
        Some((ResolvedValue::Table(entries), k))
    } else {
        None
    }
}

/// Reads an entry at offset `i`.
pub fn read_entry(bytes: &[u8], i: usize) -> (r: Option<(Entry, usize)>)
    requires
        i <= bytes@.len(),
    ensures
        match dec_entry(tail(bytes@, i as int)) {
            Some((entry, rest)) => r matches Some((e, j)) && e.deep_view() == entry && i < j
                <= bytes@.len() && tail(bytes@, j as int) == rest,
            None => r is None,
        },
    decreases bytes@.len() - i, 0nat,
{
    let (path, j) = match read_path(bytes, i) {
        Some(x) => x,
        None => {
            return None;
        },
    };
    let (position, k) = match read_position(bytes, j) {
        Some(x) => x,
        None => {
            return None;
        },
    };
    match read_value(bytes, k) {
        Some((value, next)) => Some((Entry { path, value, position }, next)),
        None => None,
    }
}

/// Reads `count` entries at offset `i`.
pub fn read_entries(bytes: &[u8], i: usize, count: u64) -> (r: Option<(Vec<Entry>, usize)>)
    requires
        i <= bytes@.len(),
    ensures
        match dec_entries(tail(bytes@, i as int), count as nat, Seq::empty()) {
            Some((entries, rest)) => r matches Some((v, j)) && v.deep_view() == entries && i <= j
                <= bytes@.len() && tail(bytes@, j as int) == rest,
            None => r is None,
        },
{
    let mut entries: Vec<Entry> = Vec::new();
    let mut k: usize = i;
    let mut done: u64 = 0;
    assert(entries.deep_view() =~= Seq::<EntryView>::empty());
    while done < count
        invariant
            done <= count,
            i <= k <= bytes@.len(),
            dec_entries(tail(bytes@, i as int), count as nat, Seq::empty()) == dec_entries(
                tail(bytes@, k as int),
                (count - done) as nat,
                entries.deep_view(),
            ),
        decreases count - done,
    {
        match read_entry(bytes, k) {
            Some((entry, next)) => {
                let ghost before = entries;
                let ghost pushed = entry;
                entries.push(entry);
                proof {
                    lemma_push_deep_view(before, entries, pushed);
                }
                k = next;
                done += 1;
            },
            None => {
                return None;
            },
        }
    }
    Some((entries, k))
}

} // verus!
