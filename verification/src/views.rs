//! Facts about the values of vectors.
use vstd::prelude::*;

verus! {

/// Appending to a vector appends to its value.
pub proof fn lemma_push_deep_view<T: DeepView>(before: Vec<T>, after: Vec<T>, item: T)
    requires
        after@ == before@.push(item),
    ensures
        after.deep_view() == before.deep_view().push(item.deep_view()),
{
    assert(after.deep_view() =~= before.deep_view().push(item.deep_view()));
}

} // verus!
