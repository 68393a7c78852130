//! Requests, the two ways to carry one out, and the way in for callers.
use crate::chunk::{
    chunk_count,
    clip,
    clipped,
    count_chunks,
    hash_chunk,
    seed_bytes,
    segments,
};
use crate::encoding::all_in_alphabet;
use crate::error::DeriveError;
use crate::gather::{gathered_text, ChunksDone, Gathering};
use crate::plan::{lemma_range_is_within, workers_in_effect};
use vstd::prelude::*;

verus! {

/// The text that one worker gives: the segments of all chunks of the request
/// in the order of their indices.
pub open spec fn sequential_text(seed: Seq<u8>, length: nat, reps: nat) -> Seq<char> {
    segments(seed, length, reps, 0, chunk_count(length))
}

/// The text that `threads` workers give: the segments of each worker's range,
/// gathered in the order of the ranges.
pub open spec fn partitioned_text(seed: Seq<u8>, length: nat, reps: nat, threads: nat) -> Seq<
    char,
> {
    let workers = workers_in_effect(threads, chunk_count(length));
    gathered_text(seed, length, reps, workers, workers)
}

/// The password of a request: the text of its chunks, hashed by one worker or
/// shared out among several, cut to the requested length.
pub open spec fn password(seed: Seq<u8>, length: nat, reps: nat, threads: nat) -> Seq<char> {
    if threads == 1 {
        clipped(sequential_text(seed, length, reps), length)
    } else {
        clipped(partitioned_text(seed, length, reps, threads), length)
    }
}

/// A request as its parts.
pub struct Request {
    /// The seed before hashing, the text of the chunks after it.
    pub text: Seq<char>,
    /// The repetition count.
    pub hashcount: nat,
    /// The number of characters asked for.
    pub length: nat,
    /// The number of workers asked for.
    pub threads: nat,
}

/// A request on its way to a password. `hash` or `hash_multi` turns the seed
/// into the text of the chunks, `encode` cuts that text to length, and
/// `finish` hands it out.
pub struct HashArguments {
    seed: String,
    hashcount: u64,
    length: u64,
    threads: u64,
}

impl View for HashArguments {
    type V = Request;

    closed spec fn view(&self) -> Request {
        Request {
            text: self.seed@,
            hashcount: self.hashcount as nat,
            length: self.length as nat,
            threads: self.threads as nat,
        }
    }
}

impl HashArguments {
    /// A request for `length` characters from `seed`, with `hashcount`
    /// repetitions, to be worked on by `threads` workers.
    pub fn new(seed: String, hashcount: u64, length: u64, threads: u64) -> (request: Self)
        ensures
            request@ == (Request {
                text: seed@,
                hashcount: hashcount as nat,
                length: length as nat,
                threads: threads as nat,
            }),
    {
        Self { seed, hashcount, length, threads }
    }

    /// Hashes every chunk on the calling thread, from the first to the last,
    /// and puts the text of the chunks in the place of the seed.
    pub fn hash(&mut self)
        requires
            old(self)@.length >= 1,
        ensures
            final(self)@ == (Request {
                text: sequential_text(
                    seed_bytes(old(self)@.text),
                    old(self)@.length,
                    old(self)@.hashcount,
                ),
                ..old(self)@
            }),
            all_in_alphabet(final(self)@.text),
    {
        let chunk_count = count_chunks(self.length);
        let mut text = String::new();
        let mut index: u64 = 0;
        while index < chunk_count
            invariant
                index <= chunk_count,
                *self == *old(self),
                text@ == segments(
                    seed_bytes(self.seed@),
                    self.length as nat,
                    self.hashcount as nat,
                    0,
                    index as nat,
                ),
                all_in_alphabet(text@),
            decreases chunk_count - index,
        {
            let segment = hash_chunk(self.seed.as_str(), self.hashcount, index, self.length);
            text.append(segment.as_str());
            index = index + 1;
        }
        self.seed = text;
    }

    /// Plans the request: a gathering with a slot and a task for each worker.
    /// A request for no characters or with no worker is refused.
    pub fn plan(&self) -> (made: Result<ChunksDone, DeriveError>)
        ensures
            (self@.length == 0 || self@.threads == 0) <==> made is Err,
            made is Err ==> made == Err::<ChunksDone, DeriveError>(DeriveError::InvalidParameter),
            made matches Ok(chunks_done) ==> chunks_done.wf() && chunks_done@ == (Gathering {
                seed: self@.text,
                length: self@.length,
                hashes: self@.hashcount,
                workers: workers_in_effect(self@.threads, chunk_count(self@.length)),
                reported: Seq::new(
                    workers_in_effect(self@.threads, chunk_count(self@.length)),
                    |slot: int| false,
                ),
            }),
    {
        ChunksDone::new(self.seed.as_str(), self.hashcount, self.length, self.threads)
    }

    /// Takes the gathering of this request once the workers are through and
    /// puts the text of the chunks, read in their order, in the place of the
    /// seed; the request then keeps the number of workers that took part. A
    /// gathering of another request, or one in which a worker has not
    /// reported, fails the request and changes nothing.
    pub fn gather(&mut self, chunks_done: ChunksDone) -> (gathered: Result<(), DeriveError>)
        requires
            chunks_done.wf(),
        ensures
            gathered is Ok <==> {
                &&& chunks_done@.seed == old(self)@.text
                &&& chunks_done@.length == old(self)@.length
                &&& chunks_done@.hashes == old(self)@.hashcount
                &&& forall|slot: int|
                    0 <= slot < chunks_done@.workers ==> #[trigger] chunks_done@.reported[slot]
            },
            gathered is Ok ==> final(self)@ == (Request {
                text: gathered_text(
                    seed_bytes(old(self)@.text),
                    old(self)@.length,
                    old(self)@.hashcount,
                    chunks_done@.workers,
                    chunks_done@.workers,
                ),
                threads: chunks_done@.workers,
                ..old(self)@
            }) && all_in_alphabet(final(self)@.text),
            gathered is Err ==> gathered == Err::<(), DeriveError>(DeriveError::WorkerFailure)
                && final(self)@ == old(self)@,
    {
        if !chunks_done.is_for(&self.seed, self.hashcount, self.length) {
            return Err(DeriveError::WorkerFailure);
        }
        let workers = chunks_done.worker_count();
        match chunks_done.combine() {
            Ok(text) => {
                self.seed = text;
                self.threads = workers;
                Ok(())
            },
            Err(failure) => Err(failure),
        }
    }

    /// Shares the chunks out among the workers, has each range hashed, and
    /// gathers the ranges in the order of the chunks. The text of the chunks
    /// takes the place of the seed, and the request keeps the number of
    /// workers that took part.
    ///
    /// Each task is hashed in turn on the calling thread. A caller with
    /// threads at hand does the same in three steps: `plan`, then each task
    /// of the gathering on a thread of its own and `place` for what comes
    /// back, in whatever order, then `gather`.
    pub fn hash_multi(&mut self)
        requires
            old(self)@.length >= 1,
            old(self)@.threads >= 2,
        ensures
            final(self)@ == (Request {
                text: partitioned_text(
                    seed_bytes(old(self)@.text),
                    old(self)@.length,
                    old(self)@.hashcount,
                    old(self)@.threads,
                ),
                threads: workers_in_effect(old(self)@.threads, chunk_count(old(self)@.length)),
                ..old(self)@
            }),
            all_in_alphabet(final(self)@.text),
    {
        let mut chunks_done = self.plan().unwrap();
        let workers = chunks_done.worker_count();
        let ghost chunks = chunk_count(self.length as nat);
        let mut slot: u64 = 0;
        while slot < workers
            invariant
                slot <= workers,
                *self == *old(self),
                chunks == chunk_count(self.length as nat),
                1 <= workers <= chunks,
                chunks_done.wf(),
                chunks_done@.seed == self.seed@,
                chunks_done@.length == self.length,
                chunks_done@.hashes == self.hashcount,
                chunks_done@.workers == workers,
                chunks_done@.reported.len() == workers,
                forall|i: int| 0 <= i < slot ==> #[trigger] chunks_done@.reported[i],
                forall|i: int| slot <= i < workers ==> !#[trigger] chunks_done@.reported[i],
            decreases workers - slot,
        {
            let mut task = chunks_done.task(slot).unwrap();
            task.hash_chunk();
            proof {
                lemma_range_is_within(chunks, workers as nat, slot as nat);
            }
            let placed = chunks_done.place(task);
            assert(placed is Ok);
            slot = slot + 1;
        }
        let gathered = self.gather(chunks_done);
        assert(gathered is Ok);
    }

    /// Cuts the text to the number of characters that the request asks for.
    pub fn encode(&mut self)
        ensures
            final(self)@ == (Request {
                text: clipped(old(self)@.text, old(self)@.length),
                ..old(self)@
            }),
    {
        let mut text = String::new();
        std::mem::swap(&mut text, &mut self.seed);
        self.seed = clip(text, self.length);
    }

    /// Ends the request and hands out its text.
    pub fn finish(self) -> (text: String)
        ensures
            text@ == self@.text,
    {
        self.seed
    }
}

/// Derives the password of a request: validates it, hashes its chunks with
/// one worker or with several, and cuts the text to length.
///
/// A request for no characters or with no worker is refused. Every other
/// request gives its password, which is the same for every worker count.
pub fn autohash(seed: String, hashcount: u64, length: u64, threads: u64) -> (derived: Result<
    String,
    DeriveError,
>)
    ensures
        (length == 0 || threads == 0) ==> derived == Err::<String, DeriveError>(
            DeriveError::InvalidParameter,
        ),
        (length >= 1 && threads >= 1) ==> (derived matches Ok(text) && text@ == password(
            seed_bytes(seed@),
            length as nat,
            hashcount as nat,
            threads as nat,
        ) && text@.len() <= length && all_in_alphabet(text@)),
{
    if length == 0 || threads == 0 {
        return Err(DeriveError::InvalidParameter);
    }
    let mut autotype = HashArguments::new(seed, hashcount, length, threads);
    if threads == 1 {
        autotype.hash();
    } else {
        autotype.hash_multi();
    }
    autotype.encode();
    Ok(autotype.finish())
}

} // verus!
