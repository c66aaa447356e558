//! The allocator of session identifiers: a counter whose values are unique
//! across a run and strictly increasing in allocation order. An adapter that
//! serves concurrent callers serializes calls to `next` (for instance behind
//! the same mutex as the session store); each serialized call then returns a
//! value strictly greater than every earlier one.

use vstd::prelude::*;

verus! {

/// A session identifier.
pub type Id = usize;

/// The identifier allocator. `id` is the last value handed out; `0` means
/// none has been yet.
pub struct IdPool {
    pub id: usize,
}

/// One call of `next`: it moves the pool from `pre` to `post` and hands out
/// `id`.
pub open spec fn issues_next_id(pre: IdPool, post: IdPool, id: Id) -> bool {
    &&& pre.id < usize::MAX
    &&& post.id == pre.id + 1
    &&& id == post.id
}

impl IdPool {
    /// A fresh pool: nothing handed out yet.
    pub fn new() -> (r: Self)
        ensures
            r.id == 0,
    {
        IdPool { id: 0 }
    }

    /// Hands out the next identifier: strictly greater than every value this
    /// pool has returned before, so no two calls ever return the same one.
    pub fn next(&mut self) -> (r: Id)
        requires
            old(self).id < usize::MAX,
        ensures
            issues_next_id(*old(self), *final(self), r),
            final(self).id == old(self).id + 1,
            r == final(self).id,
    {
        self.id = self.id + 1;
        self.id
    }
}

/// The pool never moves backwards over a run of `next` calls.
proof fn lemma_pool_monotone(pools: Seq<IdPool>, ids: Seq<Id>, i: int, j: int)
    requires
        pools.len() == ids.len() + 1,
        forall|k: int| 0 <= k < ids.len() ==> #[trigger] issues_next_id(pools[k], pools[k + 1], ids[k]),
        0 <= i <= j <= ids.len(),
    ensures
        pools[i].id <= pools[j].id,
    decreases j - i,
{
    if i < j {
        lemma_pool_monotone(pools, ids, i, j - 1);
        assert(issues_next_id(pools[j - 1], pools[j - 1 + 1], ids[j - 1]));
    }
}

/// Law: a run of `next` calls hands out pairwise-distinct identifiers.
/// `pools` is the succession of pool states and `ids[k]` the value the call
/// from `pools[k]` to `pools[k + 1]` returned; however many calls the run
/// holds, no two of them return the same identifier.
pub proof fn lemma_next_ids_distinct(pools: Seq<IdPool>, ids: Seq<Id>)
    requires
        pools.len() == ids.len() + 1,
        forall|k: int| 0 <= k < ids.len() ==> #[trigger] issues_next_id(pools[k], pools[k + 1], ids[k]),
    ensures
        forall|i: int, j: int| 0 <= i < j < ids.len() ==> ids[i] != ids[j],
{
    assert forall|i: int, j: int| 0 <= i < j < ids.len() implies ids[i] != ids[j] by {
        assert(issues_next_id(pools[i], pools[i + 1], ids[i]));
        assert(issues_next_id(pools[j], pools[j + 1], ids[j]));
        lemma_pool_monotone(pools, ids, i + 1, j);
    }
}

} // verus!
