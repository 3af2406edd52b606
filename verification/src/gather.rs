//! All or nothing: the results of the pages of one call become one result.

use crate::error::PDF2ImageError;
use vstd::prelude::*;
use vstd::std_specs::iter::IteratorSpec;

verus! {

/// What a list of results comes to: every item, in the order of the list,
/// or the error that comes first in that order.
pub open spec fn gathered<T>(results: Seq<Result<T, PDF2ImageError>>) -> Result<
    Seq<T>,
    PDF2ImageError,
>
    decreases results.len(),
{
    if results.len() == 0 {
        Ok(Seq::empty())
    } else {
        match gathered(results.drop_last()) {
            Err(e) => Err(e),
            Ok(items) => match results.last() {
                Ok(item) => Ok(items.push(item)),
                Err(e) => Err(e),
            },
        }
    }
}

/// Tells whether `results[at]` is a failure and nothing before it is.
pub open spec fn is_first_failure<T>(results: Seq<Result<T, PDF2ImageError>>, at: int) -> bool {
    &&& 0 <= at < results.len()
    &&& results[at] is Err
    &&& forall|k: int| 0 <= k < at ==> (#[trigger] results[k]) is Ok
}

/// A list gathers to its items exactly if none of its results is a failure,
/// and each item then stands where its result stood; otherwise it gathers
/// to the error of its first failure.
pub proof fn lemma_gathered<T>(results: Seq<Result<T, PDF2ImageError>>)
    ensures
        match gathered(results) {
            Ok(items) => {
                &&& items.len() == results.len()
                &&& forall|i: int|
                    0 <= i < results.len() ==> #[trigger] results[i] == Ok::<T, PDF2ImageError>(
                        items[i],
                    )
            },
            Err(e) => exists|at: int| #[trigger]
                is_first_failure(results, at) && results[at] == Err::<T, PDF2ImageError>(e),
        },
    decreases results.len(),
{
    if results.len() > 0 {
        let head = results.drop_last();
        lemma_gathered(head);
        match gathered(head) {
            Err(e) => {
                let at = choose|at: int| #[trigger]
                    is_first_failure(head, at) && head[at] == Err::<T, PDF2ImageError>(e);
                assert(is_first_failure(results, at)) by {
                    assert forall|k: int| 0 <= k < at implies (#[trigger] results[k]) is Ok by {
                        assert(head[k] is Ok);
                    }
                }
            },
            Ok(items) => match results.last() {
                Ok(item) => {
                    assert forall|i: int| 0 <= i < results.len() implies #[trigger] results[i]
                        == Ok::<T, PDF2ImageError>(items.push(item)[i]) by {
                        if i < head.len() {
                            assert(head[i] == results[i]);
                        }
                    }
                },
                Err(e) => {
                    let at = results.len() - 1;
                    assert(is_first_failure(results, at)) by {
                        assert forall|k: int| 0 <= k < at implies (#[trigger] results[k]) is Ok by {
                            assert(head[k] == results[k]);
                        }
                    }
                },
            },
        }
    }
}

/// A list without failures gathers to its items, each in its place.
pub proof fn lemma_gathered_all<T>(results: Seq<Result<T, PDF2ImageError>>, items: Seq<T>)
    requires
        items.len() == results.len(),
        forall|i: int|
            0 <= i < results.len() ==> #[trigger] results[i] == Ok::<T, PDF2ImageError>(items[i]),
    ensures
        gathered(results) == Ok::<Seq<T>, PDF2ImageError>(items),
{
    lemma_gathered(results);
    match gathered(results) {
        Ok(found) => {
            assert forall|i: int| 0 <= i < items.len() implies found[i] == items[i] by {
                assert(results[i] == Ok::<T, PDF2ImageError>(found[i]));
            }
            assert(found =~= items);
        },
        Err(e) => {
            let at = choose|at: int| #[trigger]
                is_first_failure(results, at) && results[at] == Err::<T, PDF2ImageError>(e);
            assert(results[at] is Ok);
        },
    }
}

/// A list with a failure gathers to the error of its first failure,
/// whatever comes after it.
pub proof fn lemma_gathered_first_failure<T>(results: Seq<Result<T, PDF2ImageError>>, at: int)
    requires
        is_first_failure(results, at),
    ensures
        gathered(results) == Err::<Seq<T>, PDF2ImageError>(results[at]->Err_0),
{
    lemma_gathered(results);
    match gathered(results) {
        Ok(items) => {
            assert(results[at] is Ok);
        },
        Err(e) => {
            let other = choose|other: int| #[trigger]
                is_first_failure(results, other) && results[other] == Err::<T, PDF2ImageError>(e);
            if other < at {
                assert(results[other] is Ok);
            }
            if at < other {
                assert(results[at] is Ok);
            }
        },
    }
}

/// Gathers the results of the pages of one call: all items in their order,
/// or the first error in that order and no item at all.
pub fn gather<T>(results: Vec<Result<T, PDF2ImageError>>) -> (res: Result<Vec<T>, PDF2ImageError>)
    ensures
        match gathered(results@) {
            Ok(items) => res matches Ok(found) && found@ == items,
            Err(e) => res matches Err(found) && found == e,
        },
{
    let ghost all = results@;
    let mut items: Vec<T> = Vec::new();
    for result in it: results
        invariant
            it.seq() == all,
            gathered(all.take(it.index() as int)) == Ok::<Seq<T>, PDF2ImageError>(items@),
    {
        proof {
            assert(all.take(it.index() + 1).drop_last() =~= all.take(it.index() as int));
        }
        match result {
            Ok(item) => {
                items.push(item);
            },
            Err(e) => {
                proof {
                    let at = it.index() as int;
                    lemma_gathered(all.take(at));
                    assert(is_first_failure(all, at)) by {
                        assert forall|k: int| 0 <= k < at implies (#[trigger] all[k]) is Ok by {
                            assert(all.take(at)[k] == all[k]);
                        }
                    }
                    lemma_gathered_first_failure(all, at);
                }
                return Err(e);
            },
        }
    }
    proof {
        assert(all.take(all.len() as int) =~= all);
    }
    Ok(items)
}

} // verus!
