//! The partition plan: which worker hashes which chunks.
//!
//! The chunk indices `0..chunks` are cut into `workers` ranges that follow one
//! another without a gap. Every range gets `chunks / workers` indices, and the
//! first `chunks % workers` ranges get one more.
use vstd::prelude::*;

verus! {

/// The number of workers that take part: never more than there are chunks.
pub open spec fn workers_in_effect(threads: nat, chunks: nat) -> nat {
    if threads > chunks {
        chunks
    } else {
        threads
    }
}

/// The number of chunk indices in the range of worker `slot`.
pub open spec fn range_size(chunks: nat, workers: nat, slot: nat) -> nat {
    if slot < chunks % workers {
        chunks / workers + 1
    } else {
        chunks / workers
    }
}

/// The first chunk index in the range of worker `slot`.
pub open spec fn range_start(chunks: nat, workers: nat, slot: nat) -> nat {
    if slot < chunks % workers {
        slot * (chunks / workers) + slot
    } else {
        slot * (chunks / workers) + chunks % workers
    }
}

/// The worker in whose range the chunk `index` lies.
pub open spec fn range_owner(chunks: nat, workers: nat, index: nat) -> nat {
    let base = chunks / workers;
    let extra = chunks % workers;
    if index < extra * (base + 1) {
        index / (base + 1)
    } else {
        extra + ((index - extra * (base + 1)) as nat) / base
    }
}

/// The ranges start at zero and end where the chunks end.
pub proof fn lemma_ranges_cover(chunks: nat, workers: nat)
    requires
        1 <= workers,
    ensures
        range_start(chunks, workers, 0) == 0,
        range_start(chunks, workers, workers) == chunks,
{
    let base = chunks / workers;
    let extra = chunks % workers;
    assert(0 * base == 0) by (nonlinear_arith);
    assert(workers * base + extra == chunks) by (nonlinear_arith)
        requires
            workers >= 1,
            base == chunks / workers,
            extra == chunks % workers,
    ;
}

/// Each range begins where the one before it ends.
pub proof fn lemma_ranges_contiguous(chunks: nat, workers: nat, slot: nat)
    requires
        1 <= workers,
    ensures
        range_start(chunks, workers, slot + 1) == range_start(chunks, workers, slot) + range_size(
            chunks,
            workers,
            slot,
        ),
{
    let base = chunks / workers;
    assert((slot + 1) * base == slot * base + base) by (nonlinear_arith);
}

/// No range is empty while there are no more workers than chunks, and no
/// range has more than one index more than another.
pub proof fn lemma_ranges_even(chunks: nat, workers: nat, slot: nat, other: nat)
    requires
        1 <= workers <= chunks,
    ensures
        1 <= range_size(chunks, workers, slot),
        range_size(chunks, workers, slot) <= range_size(chunks, workers, other) + 1,
        slot <= other ==> range_size(chunks, workers, other) <= range_size(chunks, workers, slot),
{
    assert(chunks / workers >= 1) by (nonlinear_arith)
        requires
            1 <= workers <= chunks,
    ;
}

/// The ranges begin further on from worker to worker.
pub proof fn lemma_ranges_ascend(chunks: nat, workers: nat, slot: nat, other: nat)
    requires
        1 <= workers <= chunks,
        slot <= other,
    ensures
        range_start(chunks, workers, slot) <= range_start(chunks, workers, other),
        slot < other ==> range_start(chunks, workers, slot) + range_size(chunks, workers, slot)
            <= range_start(chunks, workers, other),
    decreases other - slot,
{
    if slot < other {
        lemma_ranges_contiguous(chunks, workers, slot);
        lemma_ranges_ascend(chunks, workers, slot + 1, other);
    }
}

/// Every chunk lies in the range of `range_owner`, which is one of the
/// workers.
pub proof fn lemma_owner_holds(chunks: nat, workers: nat, index: nat)
    requires
        1 <= workers <= chunks,
        index < chunks,
    ensures
        range_owner(chunks, workers, index) < workers,
        range_start(chunks, workers, range_owner(chunks, workers, index)) <= index,
        index < range_start(chunks, workers, range_owner(chunks, workers, index)) + range_size(
            chunks,
            workers,
            range_owner(chunks, workers, index),
        ),
{
    let base = chunks / workers;
    let extra = chunks % workers;
    let owner = range_owner(chunks, workers, index);
    assert(base >= 1 && extra < workers && workers * base + extra == chunks) by (nonlinear_arith)
        requires
            1 <= workers <= chunks,
            base == chunks / workers,
            extra == chunks % workers,
    ;
    if index < extra * (base + 1) {
        let wide = base + 1;
        assert(owner < extra && owner * wide <= index < owner * wide + wide) by (nonlinear_arith)
            requires
                owner == index / wide,
                index < extra * wide,
                wide >= 1,
        ;
        assert(owner * wide == owner * base + owner) by (nonlinear_arith)
            requires
                wide == base + 1,
        ;
    } else {
        let rest = (index - extra * (base + 1)) as nat;
        let step = rest / base;
        assert(step * base <= rest < step * base + base) by (nonlinear_arith)
            requires
                step == rest / base,
                rest >= 0,
                base >= 1,
        ;
        assert((extra + step) * base == extra * base + step * base) by (nonlinear_arith);
        assert(extra * (base + 1) == extra * base + extra) by (nonlinear_arith);
        assert((workers - extra) * base == workers * base - extra * base) by (nonlinear_arith);
        assert(step < workers - extra) by (nonlinear_arith)
            requires
                step * base <= rest,
                rest < (workers - extra) * base,
                base >= 1,
        ;
    }
}

/// A chunk lies in the range of no worker but its owner.
pub proof fn lemma_owner_is_unique(chunks: nat, workers: nat, index: nat, slot: nat)
    requires
        1 <= workers <= chunks,
        slot < workers,
        range_start(chunks, workers, slot) <= index,
        index < range_start(chunks, workers, slot) + range_size(chunks, workers, slot),
    ensures
        range_owner(chunks, workers, index) == slot,
{
    lemma_ranges_cover(chunks, workers);
    lemma_ranges_contiguous(chunks, workers, slot);
    lemma_ranges_ascend(chunks, workers, slot + 1, workers);
    lemma_owner_holds(chunks, workers, index);
    let owner = range_owner(chunks, workers, index);
    if owner < slot {
        lemma_ranges_ascend(chunks, workers, owner, slot);
    } else if slot < owner {
        lemma_ranges_ascend(chunks, workers, slot, owner);
    }
}

/// The range of a worker is not empty, it ends within the chunks, and the
/// worker owns the chunk at which it begins.
pub proof fn lemma_range_is_within(chunks: nat, workers: nat, slot: nat)
    requires
        1 <= workers <= chunks,
        slot < workers,
    ensures
        1 <= range_size(chunks, workers, slot),
        range_start(chunks, workers, slot) + range_size(chunks, workers, slot) <= chunks,
        range_owner(chunks, workers, range_start(chunks, workers, slot)) == slot,
{
    lemma_ranges_even(chunks, workers, slot, slot);
    lemma_ranges_contiguous(chunks, workers, slot);
    lemma_ranges_cover(chunks, workers);
    lemma_ranges_ascend(chunks, workers, slot + 1, workers);
    lemma_owner_is_unique(chunks, workers, range_start(chunks, workers, slot), slot);
}

/// A partition of the chunks of one request among its workers.
pub struct PartitionPlan {
    chunks: u64,
    workers: u64,
}

impl PartitionPlan {
    #[verifier::type_invariant]
    spec fn within_bounds(self) -> bool {
        1 <= self.workers <= self.chunks
    }

    /// The number of chunks that the plan shares out.
    pub closed spec fn chunks(self) -> nat {
        self.chunks as nat
    }

    /// The number of workers that take part.
    pub closed spec fn workers(self) -> nat {
        self.workers as nat
    }

    /// Plans `chunks` chunks for `threads` workers. There is no plan for no
    /// chunks or no workers; workers beyond the number of chunks are left out.
    pub fn new(chunks: u64, threads: u64) -> (plan: Option<Self>)
        ensures
            plan is None <==> chunks == 0 || threads == 0,
            plan matches Some(p) ==> p.chunks() == chunks && p.workers() == workers_in_effect(
                threads as nat,
                chunks as nat,
            ),
    {
        if chunks == 0 || threads == 0 {
            None
        } else if threads > chunks {
            Some(PartitionPlan { chunks, workers: chunks })
        } else {
            Some(PartitionPlan { chunks, workers: threads })
        }
    }

    /// The number of chunks that the plan shares out.
    pub fn chunk_count(&self) -> (count: u64)
        ensures
            count == self.chunks(),
            count >= 1,
    {
        proof {
            use_type_invariant(self);
        }
        self.chunks
    }

    /// The number of workers that take part: at least one, and no more than
    /// there are chunks.
    pub fn worker_count(&self) -> (count: u64)
        ensures
            count == self.workers(),
            1 <= count <= self.chunks(),
    {
        proof {
            use_type_invariant(self);
        }
        self.workers
    }

    /// The range of worker `slot`: its first chunk index and the number of
    /// its chunks. There is none for a `slot` that is no worker of the plan.
    pub fn range(&self, slot: u64) -> (range: Option<(u64, u64)>)
        ensures
            range is Some <==> slot < self.workers(),
            range matches Some((start, size)) ==> {
                &&& start == range_start(self.chunks(), self.workers(), slot as nat)
                &&& size == range_size(self.chunks(), self.workers(), slot as nat)
                &&& size >= 1
                &&& start + size <= self.chunks()
            },
    {
        proof {
            use_type_invariant(self);
        }
        if slot >= self.workers {
            return None;
        }
        let base: u64 = self.chunks / self.workers;
        let extra: u64 = self.chunks % self.workers;
        proof {
            lemma_range_is_within(self.chunks as nat, self.workers as nat, slot as nat);
        }
        if slot < extra {
            Some((slot * base + slot, base + 1))
        } else {
            Some((slot * base + extra, base))
        }
    }

    /// The worker in whose range the chunk `index` lies. There is none for an
    /// index beyond the chunks of the plan.
    pub fn owner(&self, index: u64) -> (slot: Option<u64>)
        ensures
            slot is Some <==> index < self.chunks(),
            slot matches Some(s) ==> {
                &&& s == range_owner(self.chunks(), self.workers(), index as nat)
                &&& s < self.workers()
                &&& range_start(self.chunks(), self.workers(), s as nat) <= index
                &&& index < range_start(self.chunks(), self.workers(), s as nat) + range_size(
                    self.chunks(),
                    self.workers(),
                    s as nat,
                )
            },
    {
        proof {
            use_type_invariant(self);
        }
        if index >= self.chunks {
            return None;
        }
        let base: u64 = self.chunks / self.workers;
        let extra: u64 = self.chunks % self.workers;
        proof {
            let chunks = self.chunks as nat;
            let workers = self.workers as nat;
            lemma_owner_holds(chunks, workers, index as nat);
            assert(base >= 1 && extra < workers && workers * base + extra == chunks)
                by (nonlinear_arith)
                requires
                    1 <= workers <= chunks,
                    base == chunks / workers,
                    extra == chunks % workers,
            ;
            assert(extra * base <= workers * base) by (nonlinear_arith)
                requires
                    extra < workers,
            ;
            assert(extra * (base + 1) == extra * base + extra) by (nonlinear_arith);
        }
        let wide_end: u64 = extra * base + extra;
        if index < wide_end {
            assert(extra >= 1) by (nonlinear_arith)
                requires
                    index < extra * base + extra,
            ;
            assert(base + 1 <= extra * (base + 1)) by (nonlinear_arith)
                requires
                    extra >= 1,
            ;
            Some(index / (base + 1))
        } else {
            Some(extra + (index - wide_end) / base)
        }
    }
}

} // verus!
