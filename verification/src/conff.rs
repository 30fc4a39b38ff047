//! The configuration tree: the canonical form of a script's entries, and the
//! binary artifact that stores it.
//!
//! An artifact is the magic bytes, the format version, the origin as a text,
//! the number of entries, the entries, and a checksum of everything before it.
use crate::codec::{
    append_bytes, dec_entries, dec_text, dec_u64, enc_entries, enc_text, enc_u64, read_entries,
    read_text, read_u64, tail, write_entries, write_text, write_u64,
};
use crate::errors::{plain_error, SyntaxError, SyntaxErrorKind, SyntaxErrorView};
use crate::visitor::{ActionTree, ActionTreeView, Entry, EntryView, ResolvedValue, ValueView};
use vstd::bytes::{
    spec_u32_from_le_bytes, spec_u32_to_le_bytes, u32_from_le_bytes, u32_to_le_bytes,
};
use vstd::prelude::*;
use vstd::slice::slice_subrange;

verus! {

/// The version of the artifact format that this library writes and reads.
pub const VERSION: u8 = 1;

/// The four bytes that every artifact begins with.
pub open spec fn magic() -> Seq<u8> {
    seq![0x4fu8, 0x4eu8, 0x46u8, 0x47u8]
}

/// A path is valid if it has a segment and none of its segments is empty.
pub open spec fn path_ok(path: Seq<Seq<char>>) -> bool {
    path.len() > 0 && forall|i: int| 0 <= i < path.len() ==> (#[trigger] path[i]).len() > 0
}

/// A value is valid if every path in it is: a reference's own, and those of
/// everything nested in a list or a table.
pub open spec fn value_ok(value: ValueView) -> bool
    decreases value, 0nat,
{
    match value {
        ValueView::Path(path) => path_ok(path),
        ValueView::List(items) => values_ok(items, items.len()),
        ValueView::Table(entries) => entries_ok_upto(entries, entries.len()),
        _ => true,
    }
}

/// Whether the first `n` values of `items` are valid.
pub open spec fn values_ok(items: Seq<ValueView>, n: nat) -> bool
    decreases items, n,
{
    if n == 0 || n > items.len() {
        true
    } else {
        values_ok(items, (n - 1) as nat) && value_ok(items[n - 1])
    }
}

/// An entry is valid if its path and its value are.
pub open spec fn entry_ok(entry: EntryView) -> bool
    decreases entry, 0nat,
{
    path_ok(entry.path) && value_ok(entry.value)
}

/// Whether the first `n` entries of `entries` are valid.
pub open spec fn entries_ok_upto(entries: Seq<EntryView>, n: nat) -> bool
    decreases entries, n,
{
    if n == 0 || n > entries.len() {
        true
    } else {
        entries_ok_upto(entries, (n - 1) as nat) && entry_ok(entries[n - 1])
    }
}

/// Entries are valid if each of them is.
pub open spec fn entries_ok(entries: Seq<EntryView>) -> bool {
    entries_ok_upto(entries, entries.len())
}

/// The first `n` values are valid exactly if each of them is.
pub proof fn lemma_values_ok(items: Seq<ValueView>, n: nat)
    requires
        n <= items.len(),
    ensures
        values_ok(items, n) <==> (forall|k: int| 0 <= k < n ==> value_ok(#[trigger] items[k])),
    decreases n,
{
    if n > 0 {
        lemma_values_ok(items, (n - 1) as nat);
    }
}

/// The first `n` entries are valid exactly if each of them is.
pub proof fn lemma_entries_ok(entries: Seq<EntryView>, n: nat)
    requires
        n <= entries.len(),
    ensures
        entries_ok_upto(entries, n) <==> (forall|k: int|
            0 <= k < n ==> entry_ok(#[trigger] entries[k])),
    decreases n,
{
    if n > 0 {
        lemma_entries_ok(entries, (n - 1) as nat);
    }
}

/// The index of the first entry at or after `i` that is not valid.
pub open spec fn first_bad(entries: Seq<EntryView>, i: int) -> Option<int>
    decreases entries.len() - i,
{
    if i < 0 || i >= entries.len() {
        None
    } else if !entry_ok(entries[i]) {
        Some(i)
    } else {
        first_bad(entries, i + 1)
    }
}

/// Building a tree from resolved entries: the same origin and entries if all
/// of them are valid, else a failure at the first entry that is not.
pub open spec fn spec_from_att(att: ActionTreeView) -> Result<ActionTreeView, SyntaxErrorView> {
    match first_bad(att.entries, 0) {
        Some(k) => Err(
            plain_error(
                SyntaxErrorKind::EmptyPathSegment,
                att.entries[k].position.start as int,
                att.entries[k].position.end as int,
            ),
        ),
        None => Ok(att),
    }
}

/// No entry from `i` on is refused exactly if all of them are valid.
pub proof fn lemma_first_bad(entries: Seq<EntryView>, i: int)
    requires
        0 <= i,
    ensures
        first_bad(entries, i) is None <==> (forall|k: int|
            i <= k < entries.len() ==> entry_ok(#[trigger] entries[k])),
        first_bad(entries, i) matches Some(k) ==> i <= k < entries.len() && !entry_ok(entries[k]),
    decreases entries.len() - i,
{
    if i < entries.len() {
        lemma_first_bad(entries, i + 1);
    }
}

/// The checksum of the first `n` bytes: each byte is added to 31 times the
/// checksum before it, modulo 2^32.
pub open spec fn checksum_upto(bytes: Seq<u8>, n: nat) -> nat
    decreases n,
{
    if n == 0 || n > bytes.len() {
        0
    } else {
        ((checksum_upto(bytes, (n - 1) as nat) * 31 + bytes[n - 1]) % 0x1_0000_0000) as nat
    }
}

/// The checksum of `bytes`.
pub open spec fn checksum(bytes: Seq<u8>) -> u32 {
    checksum_upto(bytes, bytes.len()) as u32
}

/// The part of an artifact between the version and the checksum.
pub open spec fn enc_tree(tree: ActionTreeView) -> Seq<u8> {
    enc_text(tree.origin) + enc_u64(tree.entries.len() as u64) + enc_entries(
        tree.entries,
        tree.entries.len(),
    )
}

/// The artifact that stores `tree`.
pub open spec fn spec_compile(tree: ActionTreeView) -> Seq<u8> {
    let payload = magic() + seq![VERSION] + enc_tree(tree);
    payload + spec_u32_to_le_bytes(checksum(payload))
}

/// Reads the part of an artifact between the version and the checksum; it
/// has to be used up exactly.
pub open spec fn dec_tree(body: Seq<u8>) -> Option<ActionTreeView> {
    match dec_text(body) {
        Some((origin, rest)) => match dec_u64(rest) {
            Some((n, after)) => match dec_entries(after, n as nat, Seq::empty()) {
                Some((entries, last)) => {
                    if last.len() == 0 {
                        Some(ActionTreeView { origin, entries })
                    } else {
                        None
                    }
                },
                None => None,
            },
            None => None,
        },
        None => None,
    }
}

/// Why an artifact was refused.
#[derive(Debug, Clone, Copy, PartialEq, Eq, Hash, Structural)]
pub enum LoadError {
    /// The input does not begin with the magic bytes.
    BadMagic,
    /// The format version is not the one this library reads.
    UnsupportedVersion,
    /// The input ends before the checksum.
    Truncated,
    /// The checksum does not match the bytes before it.
    ChecksumMismatch,
    /// The contents do not decode, do not end where the artifact ends, or
    /// hold a path that is not valid.
    Malformed,
}

/// Why an artifact was refused, in words.
pub open spec fn spec_load_message(error: LoadError) -> Seq<char> {
    match error {
        LoadError::BadMagic => "not an onefig binary"@,
        LoadError::UnsupportedVersion => "written by another version of onefig"@,
        LoadError::Truncated => "cut short before the checksum"@,
        LoadError::ChecksumMismatch => "corrupted: the checksum does not match"@,
        LoadError::Malformed => "malformed contents"@,
    }
}

impl LoadError {
    /// Why the artifact was refused, in words.
    pub fn message(&self) -> (s: &'static str)
        ensures
            s@ == spec_load_message(*self),
    {
        match self {
            LoadError::BadMagic => "not an onefig binary",
            LoadError::UnsupportedVersion => "written by another version of onefig",
            LoadError::Truncated => "cut short before the checksum",
            LoadError::ChecksumMismatch => "corrupted: the checksum does not match",
            LoadError::Malformed => "malformed contents",
        }
    }
}

/// What loading an artifact yields: the magic bytes are tested first, then
/// the version, then the checksum; only then are the contents read.
pub open spec fn spec_load(bytes: Seq<u8>) -> Result<ActionTreeView, LoadError> {
    if bytes.len() < 4 || bytes.subrange(0, 4) != magic() {
        Err(LoadError::BadMagic)
    } else if bytes.len() < 5 || bytes[4] != VERSION {
        Err(LoadError::UnsupportedVersion)
    } else if bytes.len() < 9 {
        Err(LoadError::Truncated)
    } else {
        let payload = bytes.subrange(0, bytes.len() - 4);
        let stored = spec_u32_from_le_bytes(bytes.subrange(bytes.len() - 4, bytes.len() as int));
        if checksum(payload) != stored {
            Err(LoadError::ChecksumMismatch)
        } else {
            match dec_tree(tail(payload, 5)) {
                Some(tree) => if entries_ok(tree.entries) {
                    Ok(tree)
                } else {
                    Err(LoadError::Malformed)
                },
                None => Err(LoadError::Malformed),
            }
        }
    }
}

/// The canonical, storable form of a script's entries. Every path in it has
/// at least one segment, and no segment is empty.
#[derive(Debug, PartialEq, Eq)]
pub struct ConffTree {
    origin: String,
    entries: Vec<Entry>,
}

impl DeepView for ConffTree {
    type V = ActionTreeView;

    closed spec fn deep_view(&self) -> ActionTreeView {
        ActionTreeView { origin: self.origin@, entries: self.entries.deep_view() }
    }
}

/// Whether the path `path` is valid.
pub fn check_path(path: &Vec<String>) -> (b: bool)
    ensures
        b == path_ok(path.deep_view()),
{
    if path.len() == 0 {
        return false;
    }
    let mut i: usize = 0;
    while i < path.len()
        invariant
            i <= path@.len(),
            forall|k: int| 0 <= k < i ==> (#[trigger] path.deep_view()[k]).len() > 0,
        decreases path@.len() - i,
    {
        if path[i].as_str().is_empty() {
            assert(path.deep_view()[i as int].len() == 0);
            return false;
        }
        i += 1;
    }
    true
}

/// Whether the value `value` is valid.
pub fn check_value(value: &ResolvedValue) -> (b: bool)
    ensures
        b == value_ok(value.deep_view()),
    decreases value,
{
    match value {
        ResolvedValue::Path(path) => check_path(path),
        ResolvedValue::List(items) => {
            let mut i: usize = 0;
            proof {
                crate::visitor::lemma_list_view(*items);
                lemma_values_ok(items.deep_view(), items@.len());
            }
            while i < items.len()
                invariant
                    i <= items@.len(),
                    decreases_to!(value => items),
                    value_ok(value.deep_view()) <==> (forall|k: int|
                        0 <= k < items@.len() ==> value_ok(#[trigger] items.deep_view()[k])),
                    forall|k: int| 0 <= k < i ==> value_ok(#[trigger] items.deep_view()[k]),
                decreases items@.len() - i,
            {
                proof {
                    vstd::std_specs::vec::axiom_vec_index_decreases(*items, i as int);
                    assert(decreases_to!(*items => items[i as int]));
                }
                if !check_value(&items[i]) {
                    assert(!value_ok(items.deep_view()[i as int]));
                    return false;
                }
                i += 1;
            }
            true
        },
        ResolvedValue::Table(entries) => {
            let mut i: usize = 0;
            proof {
                crate::visitor::lemma_table_view(*entries);
                lemma_entries_ok(entries.deep_view(), entries@.len());
            }
            while i < entries.len()
                invariant
                    i <= entries@.len(),
                    decreases_to!(value => entries),
                    value_ok(value.deep_view()) <==> (forall|k: int|
                        0 <= k < entries@.len() ==> entry_ok(#[trigger] entries.deep_view()[k])),
                    forall|k: int| 0 <= k < i ==> entry_ok(#[trigger] entries.deep_view()[k]),
                decreases entries@.len() - i,
            {
                proof {
                    vstd::std_specs::vec::axiom_vec_index_decreases(*entries, i as int);
                    assert(decreases_to!(*entries => entries[i as int]));
                }
                if !check_entry(&entries[i]) {
                    assert(!entry_ok(entries.deep_view()[i as int]));
                    return false;
                }
                i += 1;
            }
            true
        },
        _ => true,
    }
}

/// Whether the entry `entry` is valid.
pub fn check_entry(entry: &Entry) -> (b: bool)
    ensures
        b == entry_ok(entry.deep_view()),
    decreases entry,
{
    check_path(&entry.path) && check_value(&entry.value)
}

/// The index of the first entry that is not valid, if there is one.
pub fn find_bad(entries: &Vec<Entry>) -> (r: Option<usize>)
    ensures
        match r {
            Some(k) => first_bad(entries.deep_view(), 0) == Some(k as int) && k < entries@.len(),
            None => first_bad(entries.deep_view(), 0) is None && entries_ok(entries.deep_view()),
        },
{
    let mut i: usize = 0;
    while i < entries.len()
        invariant
            i <= entries@.len(),
            first_bad(entries.deep_view(), 0) == first_bad(entries.deep_view(), i as int),
        decreases entries@.len() - i,
    {
        if !check_entry(&entries[i]) {
            return Some(i);
        }
        i += 1;
    }
    proof {
        lemma_first_bad(entries.deep_view(), 0);
        lemma_entries_ok(entries.deep_view(), entries@.len());
    }
    None
}

/// The checksum of `bytes`.
pub fn checksum_of(bytes: &[u8]) -> (sum: u32)
    ensures
        sum == checksum(bytes@),
{
    let mut acc: u64 = 0;
    let mut i: usize = 0;
    while i < bytes.len()
        invariant
            i <= bytes@.len(),
            acc == checksum_upto(bytes@, i as nat),
            acc < 0x1_0000_0000,
        decreases bytes@.len() - i,
    {
        acc = (acc * 31 + bytes[i] as u64) % 0x1_0000_0000;
        i += 1;
    }
    acc as u32
}

impl ConffTree {
    #[verifier::type_invariant]
    spec fn valid(self) -> bool {
        entries_ok(self.entries.deep_view())
    }

    /// The name of the script that the tree was built from.
    pub fn origin(&self) -> (origin: &String)
        ensures
            origin@ == self.deep_view().origin,
    {
        &self.origin
    }

    /// The entries of the tree, in source order. All of them are valid.
    pub fn entries(&self) -> (entries: &Vec<Entry>)
        ensures
            entries.deep_view() == self.deep_view().entries,
            entries_ok(entries.deep_view()),
    {
        proof {
            use_type_invariant(self);
        }
        &self.entries
    }

    /// Builds the tree of a script's resolved entries.
    ///
    /// Order is kept and nothing is looked up or merged. The entries are
    /// only checked: the first one that holds a path with no segment or with
    /// an empty segment is refused, at its position.
    pub fn from_att(att: ActionTree) -> (r: Result<ConffTree, SyntaxError>)
        ensures
            match spec_from_att(att.deep_view()) {
                Ok(tree) => r is Ok && r->Ok_0.deep_view() == tree,
                Err(e) => r is Err && r->Err_0.deep_view() == e,
            },
    {
        match find_bad(&att.entries) {
            Some(k) => {
                let position = att.entries[k].position;
                Err(
                    SyntaxError::plain(
                        SyntaxErrorKind::EmptyPathSegment,
                        position.start,
                        position.end,
                    ),
                )
            },
            None => Ok(ConffTree { origin: att.origin, entries: att.entries }),
        }
    }

    /// Encodes the tree as a binary artifact: exactly [`spec_compile`] of it.
    /// Loading the artifact yields this tree again.
    pub fn compile(&self) -> (bytes: Vec<u8>)
        ensures
            bytes@ == spec_compile(self.deep_view()),
            spec_load(bytes@) == Ok::<ActionTreeView, LoadError>(self.deep_view()),
    {
        let mut out: Vec<u8> = Vec::new();
        out.push(0x4fu8);
        out.push(0x4eu8);
        out.push(0x46u8);
        out.push(0x47u8);
        out.push(VERSION);
        write_text(&mut out, &self.origin);
        write_u64(&mut out, self.entries.len() as u64);
        write_entries(&mut out, &self.entries);
        assert(out@ =~= magic() + seq![VERSION] + enc_tree(self.deep_view()));
        let sum = u32_to_le_bytes(checksum_of(out.as_slice()));
        append_bytes(&mut out, sum.as_slice());
        proof {
            use_type_invariant(self);
            crate::roundtrip::lemma_compile_load_roundtrip(self.deep_view());
        }
        out
    }

    /// Decodes a binary artifact: exactly [`spec_load`] of the bytes.
    ///
    /// The magic bytes, the version and the checksum are tested, in this
    /// order, before anything else is read. Contents that do not decode, that
    /// leave bytes over, or that hold a path that is not valid are refused:
    /// no partial tree is ever returned.
    pub fn load_compiled(bytes: &[u8]) -> (r: Result<ConffTree, LoadError>)
        ensures
            match spec_load(bytes@) {
                Ok(tree) => r is Ok && r->Ok_0.deep_view() == tree,
                Err(e) => r == Err::<ConffTree, LoadError>(e),
            },
    {
        let n: usize = bytes.len();
        if n < 4 || bytes[0] != 0x4fu8 || bytes[1] != 0x4eu8 || bytes[2] != 0x46u8 || bytes[3]
            != 0x47u8 {
            proof {
                if n >= 4 {
                    let head = bytes@.subrange(0, 4);
                    assert(head[0] == bytes@[0] && head[1] == bytes@[1] && head[2] == bytes@[2]
                        && head[3] == bytes@[3]);
                }
            }
            return Err(LoadError::BadMagic);
        }
        assert(bytes@.subrange(0, 4) =~= magic());
        if n < 5 || bytes[4] != VERSION {
            return Err(LoadError::UnsupportedVersion);
        }
        if n < 9 {
            return Err(LoadError::Truncated);
        }
        let payload = slice_subrange(bytes, 0, n - 4);
        let stored = u32_from_le_bytes(slice_subrange(bytes, n - 4, n));
        if checksum_of(payload) != stored {
            return Err(LoadError::ChecksumMismatch);
        }
        let (origin, i) = match read_text(payload, 5) {
            Some(x) => x,
            None => {
                return Err(LoadError::Malformed);
            },
        };
        let (count, j) = match read_u64(payload, i) {
            Some(x) => x,
            None => {
                return Err(LoadError::Malformed);
            },
        };
        let (entries, k) = match read_entries(payload, j, count) {
            Some(x) => x,
            None => {
                return Err(LoadError::Malformed);
            },
        };
        if k != payload.len() {
            return Err(LoadError::Malformed);
        }
        match find_bad(&entries) {
            Some(_) => {
                proof {
                    lemma_first_bad(entries.deep_view(), 0);
                    lemma_entries_ok(entries.deep_view(), entries@.len());
                }
                Err(LoadError::Malformed)
            },
            None => Ok(ConffTree { origin, entries }),
        }
    }
}

} // verus!

