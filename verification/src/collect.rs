use itertools::Itertools;
use vstd::prelude::*;

verus! {

/// Every result of the sequence is `Ok`.
pub open spec fn all_ok<T, E>(items: Seq<Result<T, E>>) -> bool {
    forall|i: int| 0 <= i < items.len() ==> (#[trigger] items[i]) is Ok
}

/// The result at index `k` is the first one that is `Err`.
pub open spec fn first_err_at<T, E>(items: Seq<Result<T, E>>, k: int) -> bool {
    &&& 0 <= k < items.len()
    &&& items[k] is Err
    &&& forall|j: int| 0 <= j < k ==> (#[trigger] items[j]) is Ok
}

/// The values of a sequence of results that are all `Ok`.
pub open spec fn oks<T, E>(items: Seq<Result<T, E>>) -> Seq<T> {
    Seq::new(items.len(), |i: int| items[i]->Ok_0)
}

/// Gathers the values of results that were made one after the other, up to
/// the first failure.
///
/// This is `Itertools::try_collect` on the vector's own iterator. It hands
/// back the values in their order if every result is `Ok`, and else the
/// error of the first result that is `Err`.
#[verifier::external_body]
pub(crate) fn try_collect<T, E>(items: Vec<Result<T, E>>) -> (out: Result<Vec<T>, E>)
    ensures
        all_ok(items@) ==> out is Ok && out->Ok_0@ == oks(items@),
        forall|k: int| #[trigger]
            first_err_at(items@, k) ==> out is Err && out->Err_0 == items@[k]->Err_0,
{
    Itertools::try_collect(items.into_iter())
}

} // verus!
