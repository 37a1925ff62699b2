use vstd::prelude::*;

verus! {

/// The source of unique ids: it hands out 0, 1, 2, ... and wraps around to 0
/// after `u64::MAX`, from which point ids may be reused.
pub struct IdCounter {
    next: u64,
}

/// The value that follows `v` on a wrapping 64-bit counter.
pub open spec fn counter_step(v: u64) -> u64 {
    if v == u64::MAX {
        0
    } else {
        (v + 1) as u64
    }
}

/// The id handed out by the `k`-th call (counting from 0) on a counter that
/// starts at `start`.
pub open spec fn nth_id(start: u64, k: nat) -> u64
    decreases k,
{
    if k == 0 {
        start
    } else {
        counter_step(nth_id(start, (k - 1) as nat))
    }
}

impl View for IdCounter {
    type V = u64;

    closed spec fn view(&self) -> u64 {
        self.next
    }
}

impl IdCounter {
    /// A counter whose first id is 0.
    pub fn new() -> (c: IdCounter)
        ensures
            c@ == 0,
    {
        IdCounter { next: 0 }
    }

    /// A counter whose first id is `next`.
    pub fn starting_at(next: u64) -> (c: IdCounter)
        ensures
            c@ == next,
    {
        IdCounter { next }
    }

    /// The id that the next call of `get_unique_id` hands out.
    pub fn peek(&self) -> (v: u64)
        ensures
            v == self@,
    {
        self.next
    }
}

/// Hands out the counter's current value and advances it, wrapping to 0 after
/// `u64::MAX`.
pub fn get_unique_id(counter: &mut IdCounter) -> (id: u64)
    ensures
        id == old(counter)@,
        final(counter)@ == counter_step(old(counter)@),
{
    let id = counter.next;
    counter.next = counter.next.wrapping_add(1);
    id
}

/// Ids handed out before the counter wraps are pairwise distinct: the `i`-th and
/// the `j`-th call from the same start give different ids whenever both stay
/// within `u64::MAX`.
pub proof fn lemma_ids_unique_until_wrap(start: u64, i: nat, j: nat)
    requires
        i != j,
        start + i <= u64::MAX,
        start + j <= u64::MAX,
    ensures
        nth_id(start, i) != nth_id(start, j),
{
    lemma_nth_id_value(start, i);
    lemma_nth_id_value(start, j);
}

/// Before the counter wraps, the `k`-th id from `start` is `start + k`.
pub proof fn lemma_nth_id_value(start: u64, k: nat)
    requires
        start + k <= u64::MAX,
    ensures
        nth_id(start, k) == start + k,
    decreases k,
{
    if k > 0 {
        lemma_nth_id_value(start, (k - 1) as nat);
    }
}

/// After `u64::MAX` the counter wraps to 0, so an id is handed out again.
pub proof fn lemma_wrap_reuses_ids()
    ensures
        counter_step(u64::MAX) == 0,
        nth_id(u64::MAX, 1) == nth_id(0, 0),
{
    assert(nth_id(u64::MAX, 0) == u64::MAX);
}

} // verus!
