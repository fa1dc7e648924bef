//! Facts about the views of vectors.

use vstd::prelude::*;

verus! {

/// A vector that has grown by one element has grown by that element's view.
pub proof fn lemma_push_deep_view<T: DeepView>(before: Vec<T>, after: Vec<T>, pushed: T)
    requires
        after@ == before@.push(pushed),
    ensures
        after.deep_view() == before.deep_view().push(pushed.deep_view()),
{
    assert(after.deep_view() =~= before.deep_view().push(pushed.deep_view()));
}

/// Bytes are their own view.
pub proof fn lemma_bytes_deep_view(bytes: Vec<u8>)
    ensures
        bytes.deep_view() == bytes@,
{
    assert(bytes.deep_view() =~= bytes@);
}

} // verus!
