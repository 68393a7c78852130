use neo_passgen::chunk::hash_chunk;
use neo_passgen::error::DeriveError;
use neo_passgen::hashing_arguments::{autohash, HashArguments};

fn derive(seed: &str, length: u64, hashes: u64, threads: u64) -> String {
    autohash(String::from(seed), hashes, length, threads).expect("a valid request")
}

#[test]
fn a_count_of_one_gives_the_other_text() {
    assert_eq!(derive("banana", 32, 1, 1), r"nTX$_F\o>hv8HxHXMU#~vm|vp|Up>7kC");
    assert_ne!(derive("banana", 32, 1, 1), derive("banana", 32, 6, 1));
    assert_ne!(derive("foo", 55, 1, 1), derive("foo", 55, 8, 1));
    assert_ne!(derive("foo", 55, 7, 1), derive("foo", 55, 8, 1));
}

#[test]
fn one_worker_and_four_give_the_known_password() {
    let known = "<#*6'Y:[tndK3%T`qtD$(C`eIS])]A6?";
    assert_eq!(derive("apple", 32, 1, 1), known);
    assert_eq!(derive("apple", 32, 1, 4), known);
}

#[test]
fn the_worker_count_changes_nothing() {
    for length in [1u64, 74, 75, 76, 150, 151, 500, 1000] {
        for hashes in [0u64, 1, 3, 12] {
            let one = derive("determinism", length, hashes, 1);
            assert_eq!(one.chars().count() as u64, length);
            for threads in [2u64, 3, 4, 7, 8, 64, u64::MAX] {
                assert_eq!(derive("determinism", length, hashes, threads), one);
            }
        }
    }
}

#[test]
fn more_workers_than_chunks_are_as_many_as_chunks() {
    // 500 characters take 7 chunks.
    let seven = derive("clamp", 500, 2, 7);
    assert_eq!(derive("clamp", 500, 2, 8), seven);
    assert_eq!(derive("clamp", 500, 2, 1000), seven);
    // 32 characters take one chunk.
    assert_eq!(derive("clamp", 32, 2, 5), derive("clamp", 32, 2, 1));
}

#[test]
fn a_long_password_is_its_chunks_in_order() {
    let output = derive("hello", 500, 1, 3);
    assert_eq!(output.len(), 500);
    let mut expected = String::new();
    for index in 0..7 {
        let segment = hash_chunk("hello", 1, index, 500);
        assert_eq!(segment.len(), 75);
        expected.push_str(&segment);
    }
    expected.truncate(500);
    assert_eq!(output, expected);
    for boundary in [75usize, 150, 225, 300, 375, 450] {
        let index = (boundary / 75) as u64;
        let before = hash_chunk("hello", 1, index - 1, 500);
        let after = hash_chunk("hello", 1, index, 500);
        assert_eq!(&output[boundary - 5..boundary], &before[70..]);
        assert_eq!(&output[boundary..boundary + 5], &after[..5]);
    }
}

#[test]
fn two_chunks_with_two_repetitions() {
    let expected = concat_known();
    assert_eq!(derive("hello", 150, 2, 1), expected);
    assert_eq!(derive("hello", 150, 2, 2), expected);
}

fn concat_known() -> String {
    let mut text = String::from("V3|K#T/j#`<tc60wK>~%2g6M'yMq%REA\\'&n,rDROQv1TLvHA.(hgHF$\\BrmBRb5kwX,EAt*l[");
    text.push_str("\\w`+cuLz7G|uVJY~@d_\"s.hYVpmk^3nL=I96:T,)'VuQy77-!_Cvl9d2P?(8t/KT!F4#`UKVu]BR");
    text
}

#[test]
fn the_password_is_written_in_the_alphabet() {
    for c in derive("alphabet", 1000, 1, 4).chars() {
        assert!('!' <= c && c <= '~');
    }
}

#[test]
fn the_seed_is_hashed_as_utf8() {
    let plain = derive("uber", 40, 1, 1);
    let umlaut = derive("über", 40, 1, 1);
    assert_eq!(umlaut.len(), 40);
    assert_ne!(plain, umlaut);
    assert_eq!(derive("über", 40, 1, 2), umlaut);
}

#[test]
fn no_characters_or_no_worker_is_refused() {
    assert_eq!(autohash(String::from("apple"), 1, 0, 1), Err(DeriveError::InvalidParameter));
    assert_eq!(autohash(String::from("apple"), 1, 32, 0), Err(DeriveError::InvalidParameter));
    assert_eq!(autohash(String::from("apple"), 1, 0, 0), Err(DeriveError::InvalidParameter));
    assert_eq!(autohash(String::from("apple"), 1, 0, 4), Err(DeriveError::InvalidParameter));
    assert!(autohash(String::from("apple"), 0, 1, 1).is_ok());
}

#[test]
fn a_short_digest_gives_a_short_password() {
    // The digest of this chunk is written with 74 characters only.
    let segment = hash_chunk("seed133549129", 1, 0, 75);
    assert_eq!(segment.len(), 74);
    let output = derive("seed133549129", 75, 1, 1);
    assert_eq!(output, segment);
    assert_eq!(derive("seed133549129", 75, 1, 2), output);
    assert_eq!(
        output,
        "%gfe3<fURW0GY=$yDTN}5D`hhF)J8m|LVH5I\"#fD!Tdr\"i4n6P`Dk$iqOZ\\C/iW\\wxu5^E2O%}"
    );
}

#[test]
fn the_steps_one_by_one() {
    let mut request = HashArguments::new(String::from("apple"), 1, 32, 1);
    request.hash();
    request.encode();
    assert_eq!(request.finish(), "<#*6'Y:[tndK3%T`qtD$(C`eIS])]A6?");

    let mut request = HashArguments::new(String::from("apple"), 1, 32, 4);
    request.hash_multi();
    request.encode();
    assert_eq!(request.finish(), "<#*6'Y:[tndK3%T`qtD$(C`eIS])]A6?");
}

#[test]
fn hashing_gives_whole_chunks_and_encoding_cuts_them() {
    let mut request = HashArguments::new(String::from("hello"), 1, 100, 1);
    request.hash();
    let mut whole = HashArguments::new(String::from("hello"), 1, 100, 2);
    whole.hash_multi();
    let sequential = request.finish();
    assert_eq!(sequential.len(), 150);
    assert_eq!(whole.finish(), sequential);

    let mut request = HashArguments::new(String::from("hello"), 1, 100, 1);
    request.hash();
    request.encode();
    assert_eq!(request.finish(), &sequential[..100]);
}

#[test]
fn a_request_that_is_not_hashed_keeps_its_seed() {
    let request = HashArguments::new(String::from("untouched"), 1, 32, 1);
    assert_eq!(request.finish(), "untouched");

    let mut request = HashArguments::new(String::from("untouched"), 1, 4, 1);
    request.encode();
    assert_eq!(request.finish(), "unto");
}

#[test]
fn errors_say_what_went_wrong() {
    assert_eq!(
        DeriveError::InvalidParameter.message(),
        "the password length and the thread count must be at least 1"
    );
    assert_eq!(DeriveError::WorkerFailure.message(), "a worker thread ended without its chunks");
}
