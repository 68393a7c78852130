//! What holds of the password of every request.
use crate::chunk::{chunk_count, chunk_encoding, chunk_message, segments, CHUNK_SIZE};
use crate::decimal::{decimal, lemma_decimal_is_injective, lemma_decimal_is_not_empty};
use crate::gather::{gathered_text, lemma_gathered_is_a_row};
use crate::hashing_arguments::{partitioned_text, password, sequential_text};
use crate::plan::{lemma_ranges_cover, workers_in_effect};
use vstd::prelude::*;

verus! {

/// Gathering loses and adds nothing: the ranges of all workers, read in the
/// order of the ranges, are the chunks in the order of their indices,
/// however many workers there are.
pub proof fn law_gathered_is_sequential(seed: Seq<u8>, length: nat, reps: nat, workers: nat)
    requires
        workers >= 1,
    ensures
        gathered_text(seed, length, reps, workers, workers) == sequential_text(seed, length, reps),
{
    lemma_gathered_is_a_row(seed, length, reps, workers, workers);
    lemma_ranges_cover(chunk_count(length), workers);
}

/// Sharing the chunks out changes nothing: whatever the number of workers
/// asked for, the text of a request is the text that one worker gives.
pub proof fn law_partitioned_is_sequential(seed: Seq<u8>, length: nat, reps: nat, threads: nat)
    requires
        length >= 1,
        threads >= 1,
    ensures
        partitioned_text(seed, length, reps, threads) == sequential_text(seed, length, reps),
{
    law_gathered_is_sequential(
        seed,
        length,
        reps,
        workers_in_effect(threads, chunk_count(length)),
    );
}

/// The password does not depend on the worker count: two requests that
/// differ in nothing else have the same password.
pub proof fn law_worker_count_is_immaterial(
    seed: Seq<u8>,
    length: nat,
    reps: nat,
    first: nat,
    second: nat,
)
    requires
        length >= 1,
        first >= 1,
        second >= 1,
    ensures
        password(seed, length, reps, first) == password(seed, length, reps, second),
{
    law_partitioned_is_sequential(seed, length, reps, first);
    law_partitioned_is_sequential(seed, length, reps, second);
}

/// Workers beyond the number of chunks are left out: asking for more workers
/// than there are chunks gives what asking for one worker a chunk gives.
pub proof fn law_workers_are_clamped(seed: Seq<u8>, length: nat, reps: nat, threads: nat)
    requires
        length >= 1,
        threads > chunk_count(length),
    ensures
        workers_in_effect(threads, chunk_count(length)) == chunk_count(length),
        password(seed, length, reps, threads) == password(
            seed,
            length,
            reps,
            chunk_count(length),
        ),
{
    law_worker_count_is_immaterial(seed, length, reps, threads, chunk_count(length));
}

/// A password never has more characters than were asked for, and it has
/// fewer only where the chunks together give fewer.
pub proof fn law_length(seed: Seq<u8>, length: nat, reps: nat, threads: nat)
    requires
        length >= 1,
        threads >= 1,
    ensures
        password(seed, length, reps, threads).len() <= length,
        password(seed, length, reps, threads).len() == length <==> sequential_text(
            seed,
            length,
            reps,
        ).len() >= length,
{
    law_partitioned_is_sequential(seed, length, reps, threads);
}

/// The password has exactly the length asked for wherever the chunks
/// together give that many characters.
pub proof fn law_exact_length(seed: Seq<u8>, length: nat, reps: nat, threads: nat)
    requires
        length >= 1,
        threads >= 1,
        sequential_text(seed, length, reps).len() >= length,
    ensures
        password(seed, length, reps, threads).len() == length,
{
    law_length(seed, length, reps, threads);
}

/// Chunks whose digests are each written with a full chunk of characters or
/// more give a chunk size of characters each.
pub proof fn lemma_full_chunks(seed: Seq<u8>, length: nat, reps: nat, upto: nat)
    requires
        forall|index: nat|
            index < upto ==> #[trigger] chunk_encoding(seed, index, length, reps).len()
                >= CHUNK_SIZE,
    ensures
        segments(seed, length, reps, 0, upto).len() == upto * CHUNK_SIZE,
    decreases upto,
{
    if upto > 0 {
        lemma_full_chunks(seed, length, reps, (upto - 1) as nat);
        assert(chunk_encoding(seed, (upto - 1) as nat, length, reps).len() >= CHUNK_SIZE);
        assert(upto * CHUNK_SIZE == (upto - 1) * CHUNK_SIZE + CHUNK_SIZE) by (nonlinear_arith);
    } else {
        assert(0 * CHUNK_SIZE == 0) by (nonlinear_arith);
    }
}

/// The password has exactly the length asked for where the digest of every
/// chunk is written with a full chunk of characters or more.
pub proof fn law_exact_length_of_full_chunks(seed: Seq<u8>, length: nat, reps: nat, threads: nat)
    requires
        length >= 1,
        threads >= 1,
        forall|index: nat|
            index < chunk_count(length) ==> #[trigger] chunk_encoding(
                seed,
                index,
                length,
                reps,
            ).len() >= CHUNK_SIZE,
    ensures
        password(seed, length, reps, threads).len() == length,
{
    lemma_full_chunks(seed, length, reps, chunk_count(length));
    law_length(seed, length, reps, threads);
}

/// The requested length is hashed into every chunk: for two requests that
/// differ in their length alone, no chunk has the same input in both.
pub proof fn law_length_is_hashed(seed: Seq<u8>, index: nat, reps: nat, first: nat, second: nat)
    requires
        first != second,
    ensures
        chunk_message(seed, index, first, reps) != chunk_message(seed, index, second, reps),
{
    let head = seed + decimal(index);
    let one = chunk_message(seed, index, first, reps);
    let two = chunk_message(seed, index, second, reps);
    if one == two {
        assert(one.len() == two.len());
        assert(decimal(first) =~= one.subrange(
            head.len() as int,
            (head.len() + decimal(first).len()) as int,
        ));
        assert(decimal(second) =~= two.subrange(
            head.len() as int,
            (head.len() + decimal(second).len()) as int,
        ));
        lemma_decimal_is_injective(first, second);
    }
}

/// The position of a chunk is hashed into it: in one request, no two chunks
/// have the same input.
pub proof fn law_index_is_hashed(seed: Seq<u8>, length: nat, reps: nat, first: nat, second: nat)
    requires
        first != second,
    ensures
        chunk_message(seed, first, length, reps) != chunk_message(seed, second, length, reps),
{
    let one = chunk_message(seed, first, length, reps);
    let two = chunk_message(seed, second, length, reps);
    if one == two {
        assert(one.len() == two.len());
        assert(decimal(first) =~= one.subrange(
            seed.len() as int,
            (seed.len() + decimal(first).len()) as int,
        ));
        assert(decimal(second) =~= two.subrange(
            seed.len() as int,
            (seed.len() + decimal(second).len()) as int,
        ));
        lemma_decimal_is_injective(first, second);
    }
}

/// Each repetition lengthens what is hashed: with more repetitions every
/// chunk has a longer input, and so another one.
pub proof fn law_repetitions_lengthen_the_input(
    seed: Seq<u8>,
    index: nat,
    length: nat,
    fewer: nat,
    more: nat,
)
    requires
        fewer < more,
    ensures
        chunk_message(seed, index, length, fewer).len() < chunk_message(
            seed,
            index,
            length,
            more,
        ).len(),
        chunk_message(seed, index, length, fewer) != chunk_message(seed, index, length, more),
    decreases more,
{
    lemma_decimal_is_not_empty((more - 1) as nat);
    if fewer < more - 1 {
        law_repetitions_lengthen_the_input(seed, index, length, fewer, (more - 1) as nat);
    }
}

} // verus!
