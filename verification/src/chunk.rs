//! The chunk planner and the chunk hasher.
//!
//! A password is cut from a row of chunks. Each chunk is the text of one
//! digest, and the digest's input names the seed, the chunk's position and the
//! whole request, never the worker that computes it.
use crate::decimal::{decimal, push_decimal};
use crate::digest::{sha512, sha512_digest};
use crate::encoding::{all_in_alphabet, base_encode, base_text};
use vstd::prelude::*;

verus! {

/// The number of characters that one chunk gives to the password.
pub const CHUNK_SIZE: u64 = 75;

/// The size of the alphabet in which a digest is written.
pub const ALPHABET_SIZE: u8 = 94;

/// The bytes of a seed: its text in UTF-8.
pub open spec fn seed_bytes(seed: Seq<char>) -> Seq<u8> {
    vstd::utf8::encode_utf8(seed)
}

/// The numerals of `0`, `1`, ... `reps - 1`, one after the other.
pub open spec fn counters(reps: nat) -> Seq<u8>
    decreases reps,
{
    if reps == 0 {
        Seq::empty()
    } else {
        counters((reps - 1) as nat) + decimal((reps - 1) as nat)
    }
}

/// What is hashed for the chunk at `index`: the seed, the numeral of the
/// chunk's index, the numeral of the requested length, and the counters of
/// the repetitions.
pub open spec fn chunk_message(seed: Seq<u8>, index: nat, length: nat, reps: nat) -> Seq<u8> {
    seed + decimal(index) + decimal(length) + counters(reps)
}

/// The first `limit` characters of `text`, or all of it if it has no more.
pub open spec fn clipped(text: Seq<char>, limit: nat) -> Seq<char> {
    if text.len() > limit {
        text.take(limit as int)
    } else {
        text
    }
}

/// The text of the digest of one chunk, before it is cut to the chunk size.
pub open spec fn chunk_encoding(seed: Seq<u8>, index: nat, length: nat, reps: nat) -> Seq<char> {
    base_text(sha512(chunk_message(seed, index, length, reps)), ALPHABET_SIZE)
}

/// What the chunk at `index` gives to the password.
pub open spec fn chunk_segment(seed: Seq<u8>, index: nat, length: nat, reps: nat) -> Seq<char> {
    clipped(chunk_encoding(seed, index, length, reps), CHUNK_SIZE as nat)
}

/// The number of chunks for a password of `length` characters: the least
/// number whose chunk sizes add up to `length` or more.
pub open spec fn chunk_count(length: nat) -> nat {
    if length % (CHUNK_SIZE as nat) != 0 {
        length / (CHUNK_SIZE as nat) + 1
    } else {
        length / (CHUNK_SIZE as nat)
    }
}

/// The segments of the chunks `from`, `from + 1`, ... `to - 1`, in that order.
pub open spec fn segments(seed: Seq<u8>, length: nat, reps: nat, from: nat, to: nat) -> Seq<char>
    decreases to,
{
    if to <= from {
        Seq::empty()
    } else {
        segments(seed, length, reps, from, (to - 1) as nat) + chunk_segment(
            seed,
            (to - 1) as nat,
            length,
            reps,
        )
    }
}

/// Rows of segments that meet can be read as one row.
pub proof fn lemma_segments_join(
    seed: Seq<u8>,
    length: nat,
    reps: nat,
    from: nat,
    mid: nat,
    to: nat,
)
    requires
        from <= mid <= to,
    ensures
        segments(seed, length, reps, from, mid) + segments(seed, length, reps, mid, to)
            == segments(seed, length, reps, from, to),
    decreases to,
{
    if mid < to {
        lemma_segments_join(seed, length, reps, from, mid, (to - 1) as nat);
        let last = chunk_segment(seed, (to - 1) as nat, length, reps);
        assert(segments(seed, length, reps, from, mid) + (segments(
            seed,
            length,
            reps,
            mid,
            (to - 1) as nat,
        ) + last) == (segments(seed, length, reps, from, mid) + segments(
            seed,
            length,
            reps,
            mid,
            (to - 1) as nat,
        )) + last);
    } else {
        assert(segments(seed, length, reps, from, mid) + Seq::<char>::empty() == segments(
            seed,
            length,
            reps,
            from,
            mid,
        ));
    }
}

/// The chunk planner: how many chunks a password of `length` characters takes.
pub fn count_chunks(length: u64) -> (count: u64)
    ensures
        count == chunk_count(length as nat),
        length >= 1 ==> count >= 1,
        count * CHUNK_SIZE >= length,
        length >= 1 ==> (count - 1) * CHUNK_SIZE < length,
{
    if length % CHUNK_SIZE != 0 {
        length / CHUNK_SIZE + 1
    } else {
        length / CHUNK_SIZE
    }
}

/// Cuts `text` to its first `limit` characters; a text that has no more is
/// returned as it is.
pub fn clip(text: String, limit: u64) -> (cut: String)
    ensures
        cut@ == clipped(text@, limit as nat),
{
    let whole: &str = text.as_str();
    if whole.is_ascii() {
        proof {
            vstd::string::is_ascii_spec_bytes(whole);
        }
        let have: usize = whole.as_bytes().len();
        if have as u64 > limit {
            whole.substring_ascii(0, limit as usize).to_owned()
        } else {
            text
        }
    } else {
        let have: usize = whole.unicode_len();
        if have as u64 > limit {
            whole.substring_char(0, limit as usize).to_owned()
        } else {
            text
        }
    }
}

/// Writes out what is hashed for the chunk at `index`.
pub fn message_of(seed: &[u8], hashes: u64, index: u64, length: u64) -> (message: Vec<u8>)
    ensures
        message@ == chunk_message(seed@, index as nat, length as nat, hashes as nat),
{
    let mut message: Vec<u8> = Vec::new();
    message.extend_from_slice(seed);
    push_decimal(&mut message, index);
    push_decimal(&mut message, length);
    let ghost head = message@;
    let mut count: u64 = 0;
    while count < hashes
        invariant
            count <= hashes,
            message@ == head + counters(count as nat),
        decreases hashes - count,
    {
        push_decimal(&mut message, count);
        count = count + 1;
    }
    message
}

/// The chunk hasher: the segment of the chunk at `index`.
pub fn hash_chunk(seed: &str, hashes: u64, index: u64, length: u64) -> (segment: String)
    ensures
        segment@ == chunk_segment(seed_bytes(seed@), index as nat, length as nat, hashes as nat),
        all_in_alphabet(segment@),
{
    let message = message_of(seed.as_bytes(), hashes, index, length);
    let digest = sha512_digest(message.as_slice());
    let encoded = base_encode(digest.as_slice(), ALPHABET_SIZE);
    clip(encoded, CHUNK_SIZE)
}

} // verus!
