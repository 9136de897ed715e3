use vstd::prelude::*;

verus! {

/// Sequence allocator: produces a strictly increasing, unique integer each
/// time it is invoked, backed by an atomically incrementing counter cell.
/// One instance exists per kind of identifier (URL codes, user identifiers).
pub struct SequenceAllocator {
    pub value: u64,
}

impl SequenceAllocator {
    /// A fresh allocator whose counter cell starts at zero.
    pub fn new() -> (r: SequenceAllocator)
        ensures
            r.value == 0,
    {
        SequenceAllocator { value: 0 }
    }

    /// The next value of the sequence: strictly greater than every value the
    /// allocator returned before, with no gaps.
    pub fn next(&mut self) -> (r: u64)
        requires
            old(self).value < u64::MAX,
        ensures
            r == old(self).value + 1,
            final(self).value == r,
            r > old(self).value,
    {
        self.value = self.value + 1;
        self.value
    }
}

proof fn lemma_counter_after(counters: Seq<u64>, i: int)
    requires
        0 <= i < counters.len(),
        forall|k: int| 0 <= k < counters.len() - 1 ==> counters[k + 1] == #[trigger] counters[k]
            + 1,
    ensures
        counters[i] == counters[0] + i,
    decreases i,
{
    if i > 0 {
        lemma_counter_after(counters, i - 1);
    }
}

/// Law: any sequence of `next` calls against one allocator returns pairwise
/// distinct values, each strictly greater than the counter's value before
/// the first call. `counters` is the chain of counter values the serialized
/// calls pass through — `counters[0]` before the first call, and each later
/// entry both the value one call returned and the counter it left behind,
/// exactly as `next`'s contract states it. Concurrent callers serialize on
/// the counter cell's atomic increment, so their calls form such a chain.
pub proof fn lemma_next_values_distinct(counters: Seq<u64>)
    requires
        counters.len() >= 1,
        forall|k: int| 0 <= k < counters.len() - 1 ==> counters[k + 1] == #[trigger] counters[k]
            + 1,
    ensures
        forall|i: int, j: int| 1 <= i < j < counters.len() ==> counters[i] != counters[j],
        forall|i: int| 1 <= i < counters.len() ==> #[trigger] counters[i] > counters[0],
{
    assert forall|i: int| 0 <= i < counters.len() implies #[trigger] counters[i] == counters[0]
        + i by {
        lemma_counter_after(counters, i);
    }
}

} // verus!
