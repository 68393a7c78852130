//! A worker's task: the chunks of one range of one request.
use crate::chunk::{chunk_segment, hash_chunk, seed_bytes, segments};
use crate::encoding::all_in_alphabet;
use vstd::prelude::*;

verus! {

/// What a task is about and how far it has come.
pub struct Task {
    /// The seed of the request.
    pub seed: Seq<char>,
    /// The length of the password that was asked for.
    pub length: nat,
    /// The repetition count of the request.
    pub hashes: nat,
    /// The index of the first chunk of the range.
    pub index: nat,
    /// The number of chunks in the range.
    pub num: nat,
    /// The number of chunks of the range that have been hashed.
    pub done: nat,
}

/// The chunks of one range on their way through a worker. A task holds all
/// that the worker needs, so that it can be moved to another thread, and it
/// brings the finished chunks back.
#[derive(Debug)]
pub struct SeedType {
    seed: String,
    length: u64,
    chunks: Vec<String>,
    index: u64,
    hashes: u64,
    num: u64,
}

impl View for SeedType {
    type V = Task;

    closed spec fn view(&self) -> Task {
        Task {
            seed: self.seed@,
            length: self.length as nat,
            hashes: self.hashes as nat,
            index: self.index as nat,
            num: self.num as nat,
            done: self.chunks@.len(),
        }
    }
}

impl Clone for SeedType {
    /// A second task on the same range, with the same chunks hashed.
    fn clone(&self) -> (copy: Self)
        ensures
            copy@ == self@,
    {
        proof {
            use_type_invariant(self);
        }
        let mut chunks: Vec<String> = Vec::new();
        let mut taken: usize = 0;
        while taken < self.chunks.len()
            invariant
                taken <= self.chunks@.len(),
                chunks@.len() == taken,
                forall|i: int| 0 <= i < taken ==> (#[trigger] chunks@[i])@ == self.chunks@[i]@,
            decreases self.chunks@.len() - taken,
        {
            chunks.push(self.chunks[taken].clone());
            taken = taken + 1;
        }
        SeedType {
            seed: self.seed.clone(),
            length: self.length,
            chunks,
            index: self.index,
            hashes: self.hashes,
            num: self.num,
        }
    }
}

impl SeedType {
    /// The range lies within the indices that a `u64` can name, and the
    /// chunks held are the first chunks of the range, hashed as the request
    /// asks.
    #[verifier::type_invariant]
    spec fn chunks_belong(self) -> bool {
        &&& self.index + self.num <= u64::MAX
        &&& self.chunks@.len() <= self.num
        &&& forall|i: int|
            0 <= i < self.chunks@.len() ==> (#[trigger] self.chunks@[i])@ == chunk_segment(
                seed_bytes(self.seed@),
                (self.index + i) as nat,
                self.length as nat,
                self.hashes as nat,
            )
        &&& forall|i: int|
            0 <= i < self.chunks@.len() ==> all_in_alphabet((#[trigger] self.chunks@[i])@)
    }

    /// A task for the `num` chunks from `index` on, with none of them hashed.
    pub fn new(seed: String, length: u64, index: u64, hashes: u64, num: u64) -> (task: Self)
        requires
            index + num <= u64::MAX,
        ensures
            task@ == (Task {
                seed: seed@,
                length: length as nat,
                hashes: hashes as nat,
                index: index as nat,
                num: num as nat,
                done: 0,
            }),
    {
        SeedType { seed, length, chunks: Vec::new(), index, hashes, num }
    }

    /// Moves the range to begin at `input`. The task starts over.
    pub fn set_index(&mut self, input: u64)
        requires
            input + old(self)@.num <= u64::MAX,
        ensures
            final(self)@ == (Task { index: input as nat, done: 0, ..old(self)@ }),
    {
        proof {
            use_type_invariant(&*self);
        }
        self.chunks = Vec::new();
        self.index = input;
    }

    /// Sets the number of chunks in the range. The task starts over.
    pub fn set_num(&mut self, input: u64)
        requires
            old(self)@.index + input <= u64::MAX,
        ensures
            final(self)@ == (Task { num: input as nat, done: 0, ..old(self)@ }),
    {
        proof {
            use_type_invariant(&*self);
        }
        self.chunks = Vec::new();
        self.num = input;
    }

    /// The index of the first chunk of the range.
    pub fn index(&self) -> (index: u64)
        ensures
            index == self@.index,
    {
        self.index
    }

    /// The number of chunks in the range.
    pub fn num(&self) -> (num: u64)
        ensures
            num == self@.num,
            self@.index + num <= u64::MAX,
    {
        proof {
            use_type_invariant(self);
        }
        self.num
    }

    /// The seed of the request.
    pub fn seed(&self) -> (seed: &String)
        ensures
            seed@ == self@.seed,
    {
        &self.seed
    }

    /// The length of the password that was asked for.
    pub fn length(&self) -> (length: u64)
        ensures
            length == self@.length,
    {
        self.length
    }

    /// The repetition count of the request.
    pub fn hashes(&self) -> (hashes: u64)
        ensures
            hashes == self@.hashes,
    {
        self.hashes
    }

    /// Whether every chunk of the range has been hashed.
    pub fn is_finished(&self) -> (finished: bool)
        ensures
            finished <==> self@.done == self@.num,
            self@.done <= self@.num,
    {
        proof {
            use_type_invariant(self);
        }
        self.chunks.len() as u64 == self.num
    }

    /// Hashes the chunks of the range that are still missing, in ascending
    /// order of their indices.
    pub fn hash_chunk(&mut self)
        ensures
            final(self)@ == (Task { done: old(self)@.num, ..old(self)@ }),
    {
        proof {
            use_type_invariant(&*self);
        }
        let mut chunks: Vec<String> = Vec::new();
        std::mem::swap(&mut chunks, &mut self.chunks);
        while (chunks.len() as u64) < self.num
            invariant
                self.seed == old(self).seed,
                self.length == old(self).length,
                self.hashes == old(self).hashes,
                self.index == old(self).index,
                self.num == old(self).num,
                self.chunks@.len() == 0,
                self.index + self.num <= u64::MAX,
                chunks@.len() <= self.num,
                forall|i: int|
                    0 <= i < chunks@.len() ==> (#[trigger] chunks@[i])@ == chunk_segment(
                        seed_bytes(self.seed@),
                        (self.index + i) as nat,
                        self.length as nat,
                        self.hashes as nat,
                    ),
                forall|i: int| 0 <= i < chunks@.len() ==> all_in_alphabet((#[trigger] chunks@[i])@),
            decreases self.num - chunks@.len(),
        {
            let offset: u64 = chunks.len() as u64;
            let segment = hash_chunk(self.seed.as_str(), self.hashes, self.index + offset, self.length);
            chunks.push(segment);
        }
        self.chunks = chunks;
    }

    /// The segments of the hashed chunks of the range, one after the other.
    pub fn text(&self) -> (text: String)
        ensures
            text@ == segments(
                seed_bytes(self@.seed),
                self@.length,
                self@.hashes,
                self@.index,
                self@.index + self@.done,
            ),
            all_in_alphabet(text@),
    {
        proof {
            use_type_invariant(self);
        }
        let mut text = String::new();
        let mut taken: usize = 0;
        while taken < self.chunks.len()
            invariant
                taken <= self.chunks@.len(),
                self.index + self.chunks@.len() <= u64::MAX,
                forall|i: int|
                    0 <= i < self.chunks@.len() ==> (#[trigger] self.chunks@[i])@ == chunk_segment(
                        seed_bytes(self.seed@),
                        (self.index + i) as nat,
                        self.length as nat,
                        self.hashes as nat,
                    ),
                forall|i: int|
                    0 <= i < self.chunks@.len() ==> all_in_alphabet(
                        (#[trigger] self.chunks@[i])@,
                    ),
                text@ == segments(
                    seed_bytes(self.seed@),
                    self.length as nat,
                    self.hashes as nat,
                    self.index as nat,
                    (self.index + taken) as nat,
                ),
                all_in_alphabet(text@),
            decreases self.chunks@.len() - taken,
        {
            text.append(self.chunks[taken].as_str());
            taken = taken + 1;
        }
        text
    }

    /// Gives up the task for the text of its hashed chunks.
    pub fn finish(self) -> (text: String)
        ensures
            text@ == segments(
                seed_bytes(self@.seed),
                self@.length,
                self@.hashes,
                self@.index,
                self@.index + self@.done,
            ),
            all_in_alphabet(text@),
    {
        self.text()
    }
}

} // verus!
