//! Gathering the ranges: one slot for each worker, filled in whatever order
//! the workers report, read out in the order of the chunks.
use crate::chunk::{chunk_count, count_chunks, lemma_segments_join, seed_bytes, segments};
use crate::encoding::all_in_alphabet;
use crate::error::DeriveError;
use crate::plan::{
    lemma_range_is_within,
    lemma_ranges_contiguous,
    lemma_ranges_cover,
    range_owner,
    range_size,
    range_start,
    workers_in_effect,
    PartitionPlan,
};
use crate::task::{SeedType, Task};
use vstd::prelude::*;

verus! {

/// The segments of the ranges of the first `upto` of `workers` workers, range
/// after range.
pub open spec fn gathered_text(
    seed: Seq<u8>,
    length: nat,
    reps: nat,
    workers: nat,
    upto: nat,
) -> Seq<char>
    decreases upto,
{
    if upto == 0 {
        Seq::empty()
    } else {
        let slot = (upto - 1) as nat;
        let start = range_start(chunk_count(length), workers, slot);
        let size = range_size(chunk_count(length), workers, slot);
        gathered_text(seed, length, reps, workers, slot) + segments(
            seed,
            length,
            reps,
            start,
            start + size,
        )
    }
}

/// The ranges of the first workers, read one after the other, are the chunks
/// from the first one up to where the next worker's range begins.
pub proof fn lemma_gathered_is_a_row(seed: Seq<u8>, length: nat, reps: nat, workers: nat, upto: nat)
    requires
        1 <= workers,
    ensures
        gathered_text(seed, length, reps, workers, upto) == segments(
            seed,
            length,
            reps,
            0,
            range_start(chunk_count(length), workers, upto),
        ),
    decreases upto,
{
    let chunks = chunk_count(length);
    if upto == 0 {
        lemma_ranges_cover(chunks, workers);
    } else {
        let slot = (upto - 1) as nat;
        lemma_gathered_is_a_row(seed, length, reps, workers, slot);
        lemma_ranges_contiguous(chunks, workers, slot);
        lemma_segments_join(
            seed,
            length,
            reps,
            0,
            range_start(chunks, workers, slot),
            range_start(chunks, workers, upto),
        );
    }
}

/// What a gathering is about and which workers have reported.
pub struct Gathering {
    /// The seed of the request.
    pub seed: Seq<char>,
    /// The length of the password that was asked for.
    pub length: nat,
    /// The repetition count of the request.
    pub hashes: nat,
    /// The number of workers among which the chunks are shared out.
    pub workers: nat,
    /// For each worker, whether the chunks of its range are in.
    pub reported: Seq<bool>,
}

/// Whether `task` is the finished task of worker `slot` of the gathering `g`.
pub open spec fn reports_for(g: Gathering, task: Task, slot: nat) -> bool {
    &&& slot < g.workers
    &&& task.seed == g.seed
    &&& task.length == g.length
    &&& task.hashes == g.hashes
    &&& task.index == range_start(chunk_count(g.length), g.workers, slot)
    &&& task.num == range_size(chunk_count(g.length), g.workers, slot)
    &&& task.done == task.num
}

/// The slot that `task` fills in the gathering `g`, if it fills one: that of
/// the worker whose range begins at the first chunk of the task, unless that
/// worker has reported before.
pub open spec fn place_of(g: Gathering, task: Task) -> Option<nat> {
    let slot = range_owner(chunk_count(g.length), g.workers, task.index);
    if task.index < chunk_count(g.length) && reports_for(g, task, slot) && !g.reported[slot as int] {
        Some(slot)
    } else {
        None
    }
}

/// The slots of one request: a task for each worker, in the order of the
/// ranges. A slot holds the task as it was handed out until the worker's
/// finished task is put in its place.
pub struct ChunksDone {
    plan: PartitionPlan,
    seed: String,
    length: u64,
    hashes: u64,
    slots: Vec<SeedType>,
}

impl View for ChunksDone {
    type V = Gathering;

    closed spec fn view(&self) -> Gathering {
        Gathering {
            seed: self.seed@,
            length: self.length as nat,
            hashes: self.hashes as nat,
            workers: self.slots@.len(),
            reported: Seq::new(
                self.slots@.len(),
                |slot: int| self.slots@[slot]@.done == self.slots@[slot]@.num,
            ),
        }
    }
}

impl ChunksDone {
    /// The plan is that of the request, and each slot holds a task on the
    /// range of its worker. `new` makes such a gathering and `place` keeps it
    /// so; there is no other way to one.
    pub closed spec fn wf(&self) -> bool {
        &&& self.plan.chunks() == chunk_count(self.length as nat)
        &&& self.plan.workers() == self.slots@.len()
        &&& 1 <= self.slots@.len() <= self.plan.chunks()
        &&& forall|slot: int|
            0 <= slot < self.slots@.len() ==> (#[trigger] self.slots@[slot])@ == (Task {
                seed: self.seed@,
                length: self.length as nat,
                hashes: self.hashes as nat,
                index: range_start(self.plan.chunks(), self.plan.workers(), slot as nat),
                num: range_size(self.plan.chunks(), self.plan.workers(), slot as nat),
                done: self.slots@[slot]@.done,
            })
    }

    /// Plans a request and lays out a slot for each worker. A request for no
    /// characters or with no worker is refused.
    pub fn new(seed: &str, hashes: u64, length: u64, threads: u64) -> (made: Result<
        Self,
        DeriveError,
    >)
        ensures
            (length == 0 || threads == 0) <==> made is Err,
            made is Err ==> made == Err::<Self, DeriveError>(DeriveError::InvalidParameter),
            made matches Ok(done) ==> done.wf() && done@ == (Gathering {
                seed: seed@,
                length: length as nat,
                hashes: hashes as nat,
                workers: workers_in_effect(threads as nat, chunk_count(length as nat)),
                reported: Seq::new(
                    workers_in_effect(threads as nat, chunk_count(length as nat)),
                    |slot: int| false,
                ),
            }),
    {
        let chunks = count_chunks(length);
        let plan = match PartitionPlan::new(chunks, threads) {
            Some(plan) => plan,
            None => {
                return Err(DeriveError::InvalidParameter);
            },
        };
        let workers = plan.worker_count();
        let mut slots: Vec<SeedType> = Vec::new();
        let mut slot: u64 = 0;
        while slot < workers
            invariant
                slot <= workers,
                workers == plan.workers(),
                chunks == plan.chunks(),
                slots@.len() == slot,
                forall|i: int|
                    0 <= i < slot ==> (#[trigger] slots@[i])@ == (Task {
                        seed: seed@,
                        length: length as nat,
                        hashes: hashes as nat,
                        index: range_start(chunks as nat, workers as nat, i as nat),
                        num: range_size(chunks as nat, workers as nat, i as nat),
                        done: 0,
                    }),
            decreases workers - slot,
        {
            let (start, size) = plan.range(slot).unwrap();
            slots.push(SeedType::new(seed.to_owned(), length, start, hashes, size));
            slot = slot + 1;
        }
        let done = ChunksDone { plan, seed: seed.to_owned(), length, hashes, slots };
        assert(done@.reported =~= Seq::new(workers as nat, |slot: int| false)) by {
            assert forall|i: int| 0 <= i < workers implies !(#[trigger] done@.reported[i]) by {
                lemma_range_is_within(chunks as nat, workers as nat, i as nat);
            }
        }
        Ok(done)
    }

    /// The number of workers among which the chunks are shared out.
    pub fn worker_count(&self) -> (count: u64)
        requires
            self.wf(),
        ensures
            count == self@.workers,
            count >= 1,
            count == self@.reported.len(),
    {
        self.plan.worker_count()
    }

    /// Whether the gathering is that of the request with this seed, length
    /// and repetition count.
    pub fn is_for(&self, seed: &String, hashes: u64, length: u64) -> (same: bool)
        ensures
            same <==> self@.seed == seed@ && self@.hashes == hashes && self@.length == length,
    {
        self.hashes == hashes && self.length == length && self.seed == *seed
    }

    /// The task to hand to worker `slot`, with none of its chunks hashed.
    /// There is none for a `slot` beyond the workers.
    pub fn task(&self, slot: u64) -> (task: Option<SeedType>)
        requires
            self.wf(),
        ensures
            task is Some <==> slot < self@.workers,
            task matches Some(t) ==> t@ == (Task {
                seed: self@.seed,
                length: self@.length,
                hashes: self@.hashes,
                index: range_start(chunk_count(self@.length), self@.workers, slot as nat),
                num: range_size(chunk_count(self@.length), self@.workers, slot as nat),
                done: 0,
            }),
    {
        match self.plan.range(slot) {
            Some((start, size)) => Some(
                SeedType::new(self.seed.clone(), self.length, start, self.hashes, size),
            ),
            None => None,
        }
    }

    /// Whether worker `slot` has reported. No worker beyond the plan has.
    pub fn has_reported(&self, slot: u64) -> (reported: bool)
        requires
            self.wf(),
        ensures
            reported <==> slot < self@.workers && self@.reported[slot as int],
    {
        let count: usize = self.slots.len();
        if slot >= count as u64 {
            false
        } else {
            self.slots[slot as usize].is_finished()
        }
    }

    /// Takes what a worker hands back and puts it into the slot of its range,
    /// whichever workers reported before it. Each slot is filled once: a task
    /// that is not finished, that is not the task of a worker of this
    /// gathering, or whose worker has reported already, is turned away and
    /// changes nothing.
    pub fn place(&mut self, received: SeedType) -> (placed: Result<(), DeriveError>)
        requires
            old(self).wf(),
        ensures
            final(self).wf(),
            final(self)@.seed == old(self)@.seed,
            final(self)@.length == old(self)@.length,
            final(self)@.hashes == old(self)@.hashes,
            final(self)@.workers == old(self)@.workers,
            match place_of(old(self)@, received@) {
                Some(slot) => placed is Ok && final(self)@.reported == old(self)@.reported.update(
                    slot as int,
                    true,
                ),
                None => placed == Err::<(), DeriveError>(DeriveError::WorkerFailure)
                    && final(self)@.reported == old(self)@.reported,
            },
    {
        let finished = received.is_finished();
        let same = received.length() == self.length && received.hashes() == self.hashes
            && *received.seed() == self.seed;
        let slot = match self.plan.owner(received.index()) {
            Some(slot) => slot,
            None => {
                return Err(DeriveError::WorkerFailure);
            },
        };
        let (start, size) = self.plan.range(slot).unwrap();
        if !finished || !same || start != received.index() || size != received.num() {
            return Err(DeriveError::WorkerFailure);
        }
        let count: usize = self.slots.len();
        assert(slot < count);
        if self.slots[slot as usize].is_finished() {
            return Err(DeriveError::WorkerFailure);
        }
        let ghost before = self@;
        self.slots.set(slot as usize, received);
        assert(self@.reported =~= before.reported.update(slot as int, true));
        Ok(())
    }

    /// Reads the slots out in the order of the chunks. There is no text while
    /// a worker has not reported.
    pub fn combine(self) -> (text: Result<String, DeriveError>)
        requires
            self.wf(),
        ensures
            text is Ok <==> (forall|slot: int|
                0 <= slot < self@.workers ==> #[trigger] self@.reported[slot]),
            text is Err ==> text == Err::<String, DeriveError>(DeriveError::WorkerFailure),
            text matches Ok(t) ==> t@ == gathered_text(
                seed_bytes(self@.seed),
                self@.length,
                self@.hashes,
                self@.workers,
                self@.workers,
            ) && all_in_alphabet(t@),
    {
        let mut text = String::new();
        let mut slot: usize = 0;
        while slot < self.slots.len()
            invariant
                slot <= self.slots@.len(),
                self.plan.chunks() == chunk_count(self.length as nat),
                self.plan.workers() == self.slots@.len(),
                forall|i: int|
                    0 <= i < self.slots@.len() ==> (#[trigger] self.slots@[i])@ == (Task {
                        seed: self.seed@,
                        length: self.length as nat,
                        hashes: self.hashes as nat,
                        index: range_start(self.plan.chunks(), self.plan.workers(), i as nat),
                        num: range_size(self.plan.chunks(), self.plan.workers(), i as nat),
                        done: self.slots@[i]@.done,
                    }),
                forall|i: int| 0 <= i < slot ==> #[trigger] self@.reported[i],
                text@ == gathered_text(
                    seed_bytes(self.seed@),
                    self.length as nat,
                    self.hashes as nat,
                    self.slots@.len(),
                    slot as nat,
                ),
                all_in_alphabet(text@),
            decreases self.slots@.len() - slot,
        {
            if !self.slots[slot].is_finished() {
                assert(!self@.reported[slot as int]);
                return Err(DeriveError::WorkerFailure);
            }
            let part = self.slots[slot].text();
            text.append(part.as_str());
            slot = slot + 1;
        }
        Ok(text)
    }
}

} // verus!
