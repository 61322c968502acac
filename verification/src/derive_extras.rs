//! Helpers for assembling many fallible reads into one result.

use vstd::prelude::*;

verus! {

/// The first `k` entries of `items` are all successes.
pub open spec fn all_ok_prefix<V, E>(items: Seq<Result<V, E>>, k: int) -> bool {
    forall|j: int| 0 <= j < k ==> items[j] is Ok
}

/// Collects a sequence of fallible results into a single result: the values
/// of all entries if every entry succeeded, and otherwise the first error.
#[verifier::loop_isolation(false)]
pub fn iter_to_result<V, E>(items: Vec<Result<V, E>>) -> (r: Result<Vec<V>, E>)
    ensures
        match r {
            Ok(values) => values@.len() == items@.len() && (forall|j: int|
                0 <= j < items@.len() ==> items@[j] is Ok && values@[j] == items@[j]->Ok_0),
            Err(e) => exists|k: int|
                0 <= k < items@.len() && items@[k] == Err::<V, E>(e) && #[trigger] all_ok_prefix(
                    items@,
                    k,
                ),
        },
{
    let ghost orig = items@;
    let mut rest = items;
    let mut values: Vec<V> = Vec::new();
    proof {
        assert(orig.subrange(0, orig.len() as int) =~= orig);
    }
    while rest.len() > 0
        invariant
            values@.len() + rest@.len() == orig.len(),
            rest@ == orig.subrange(values@.len() as int, orig.len() as int),
            forall|j: int|
                0 <= j < values@.len() ==> ((#[trigger] orig[j]) is Ok && values@[j]
                    == orig[j]->Ok_0),
        decreases rest@.len(),
    {
        let ghost before = rest@;
        let item = rest.remove(0);
        proof {
            assert(rest@ =~= orig.subrange(values@.len() as int + 1, orig.len() as int));
        }
        match item {
            Ok(v) => {
                proof {
                    assert(orig[values@.len() as int] == before[0]);
                }
                values.push(v);
            },
            Err(e) => {
                proof {
                    let k = values@.len() as int;
                    assert(orig[k] == Err::<V, E>(e));
                    assert(all_ok_prefix(orig, k));
                }
                return Err(e);
            },
        }
    }
    Ok(values)
}

} // verus!
