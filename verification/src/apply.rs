//! Applying a tree: the plan of assignments, and a model of the sink that
//! receives them.
use crate::conff::ConffTree;
use crate::visitor::{lemma_table_view, Entry, EntryView, ResolvedValue, ValueView};
use vstd::prelude::*;

verus! {

/// The assignments that an entry stands for: itself, or, if its value is a
/// table, those of the table's entries.
pub open spec fn entry_leaves(entry: EntryView) -> Seq<EntryView>
    decreases entry, 0nat,
{
    match entry.value {
        ValueView::Table(inner) => leaves(inner, inner.len()),
        _ => seq![entry],
    }
}

/// The assignments that the first `n` entries stand for, in order.
pub open spec fn leaves(entries: Seq<EntryView>, n: nat) -> Seq<EntryView>
    decreases entries, n,
{
    if n == 0 || n > entries.len() {
        Seq::empty()
    } else {
        leaves(entries, (n - 1) as nat) + entry_leaves(entries[n - 1])
    }
}

/// The state of a sink: the value last assigned to each absolute path.
pub type SinkState = Map<Seq<Seq<char>>, ValueView>;

/// The state after the first `n` assignments of `plan` were made, one after
/// the other, on `state`. A later assignment to the same path wins.
pub open spec fn apply_all(state: SinkState, plan: Seq<EntryView>, n: nat) -> SinkState
    decreases n,
{
    if n == 0 || n > plan.len() {
        state
    } else {
        apply_all(state, plan, (n - 1) as nat).insert(plan[n - 1].path, plan[n - 1].value)
    }
}

/// The value that the last of the first `n` assignments to `path` assigns.
pub open spec fn last_write(plan: Seq<EntryView>, n: nat, path: Seq<Seq<char>>) -> Option<
    ValueView,
>
    decreases n,
{
    if n == 0 || n > plan.len() {
        None
    } else if plan[n - 1].path == path {
        Some(plan[n - 1].value)
    } else {
        last_write(plan, (n - 1) as nat, path)
    }
}

/// After a plan was applied, a path holds what the plan last assigned to it,
/// or, if the plan never assigns to it, what it held before.
pub proof fn lemma_apply_all_last_write(
    state: SinkState,
    plan: Seq<EntryView>,
    n: nat,
    path: Seq<Seq<char>>,
)
    requires
        n <= plan.len(),
    ensures
        apply_all(state, plan, n).dom().contains(path) <==> (state.dom().contains(path)
            || last_write(plan, n, path) is Some),
        match last_write(plan, n, path) {
            Some(value) => apply_all(state, plan, n)[path] == value,
            None => apply_all(state, plan, n)[path] == state[path],
        },
    decreases n,
{
    if n > 0 {
        lemma_apply_all_last_write(state, plan, (n - 1) as nat, path);
    }
}

/// Idempotence. Applying a plan to a state that the same plan was just
/// applied to changes nothing.
pub proof fn lemma_apply_twice(state: SinkState, plan: Seq<EntryView>)
    ensures
        apply_all(apply_all(state, plan, plan.len()), plan, plan.len()) == apply_all(
            state,
            plan,
            plan.len(),
        ),
{
    let once = apply_all(state, plan, plan.len());
    let twice = apply_all(once, plan, plan.len());
    assert forall|path: Seq<Seq<char>>| #[trigger]
        twice.dom().contains(path) <==> once.dom().contains(path) by {
        lemma_apply_all_last_write(state, plan, plan.len(), path);
        lemma_apply_all_last_write(once, plan, plan.len(), path);
    }
    assert forall|path: Seq<Seq<char>>| #[trigger] twice[path] == once[path] by {
        lemma_apply_all_last_write(state, plan, plan.len(), path);
        lemma_apply_all_last_write(once, plan, plan.len(), path);
    }
    assert(twice.dom() =~= once.dom());
    assert(twice =~= once);
}

/// Appends to `out` the assignments that `entries` stand for.
fn collect_leaves<'a>(entries: &'a Vec<Entry>, out: &mut Vec<&'a Entry>)
    ensures
        final(out).deep_view() == old(out).deep_view() + leaves(
            entries.deep_view(),
            entries@.len(),
        ),
    decreases entries,
{
    let ghost before = out.deep_view();
    let mut i: usize = 0;
    assert(out.deep_view() =~= before + leaves(entries.deep_view(), 0));
    while i < entries.len()
        invariant
            i <= entries@.len(),
            out.deep_view() == before + leaves(entries.deep_view(), i as nat),
        decreases entries@.len() - i,
    {
        let entry = &entries[i];
        let ghost sofar = out.deep_view();
        proof {
            vstd::std_specs::vec::axiom_vec_index_decreases(*entries, i as int);
            assert(decreases_to!(*entries => entries[i as int]));
        }
        assert(entries.deep_view()[i as int] == entry.deep_view());
        match &entry.value {
            ResolvedValue::Table(inner) => {
                proof {
                    lemma_table_view(*inner);
                    assert(decreases_to!(*entries => *inner));
                }
                collect_leaves(inner, out);
                assert(entry_leaves(entry.deep_view()) == leaves(inner.deep_view(), inner@.len()));
            },
            _ => {
                out.push(entry);
                assert(out.deep_view() =~= sofar + seq![entry.deep_view()]);
                assert(entry_leaves(entry.deep_view()) == seq![entry.deep_view()]);
            },
        }
        i += 1;
        assert(out.deep_view() =~= before + (leaves(entries.deep_view(), (i - 1) as nat)
            + entry_leaves(entries.deep_view()[i - 1])));
    }
}

impl ConffTree {
    /// The plan for applying the tree: its assignments in tree order, depth
    /// first. An entry whose value is a table stands for the entries of the
    /// table; every other entry stands for itself. Nothing is applied here:
    /// the caller hands each assignment to the sink that its path belongs to.
    pub fn generate(&self) -> (plan: Vec<&Entry>)
        ensures
            plan.deep_view() == leaves(
                self.deep_view().entries,
                self.deep_view().entries.len(),
            ),
    {
        let mut plan: Vec<&Entry> = Vec::new();
        assert(plan.deep_view() =~= Seq::<EntryView>::empty());
        let entries = self.entries();
        collect_leaves(entries, &mut plan);
        assert(plan.deep_view() =~= leaves(entries.deep_view(), entries@.len()));
        plan
    }
}

} // verus!
