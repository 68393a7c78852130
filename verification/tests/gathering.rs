use neo_passgen::chunk::hash_chunk;
use neo_passgen::error::DeriveError;
use neo_passgen::gather::ChunksDone;
use neo_passgen::hashing_arguments::{autohash, HashArguments};
use neo_passgen::task::SeedType;

#[test]
fn a_task_hashes_its_range() {
    let mut task = SeedType::new(String::from("hello"), 500, 3, 1, 2);
    assert_eq!(task.index(), 3);
    assert_eq!(task.num(), 2);
    assert_eq!(task.length(), 500);
    assert_eq!(task.hashes(), 1);
    assert_eq!(task.seed(), "hello");
    assert!(!task.is_finished());
    assert_eq!(task.text(), "");
    task.hash_chunk();
    assert!(task.is_finished());
    let mut expected = hash_chunk("hello", 1, 3, 500);
    expected.push_str(&hash_chunk("hello", 1, 4, 500));
    assert_eq!(task.text(), expected);
    task.hash_chunk();
    assert_eq!(task.clone().finish(), expected);
    assert_eq!(task.finish(), expected);
}

#[test]
fn a_task_that_is_moved_starts_over() {
    let mut task = SeedType::new(String::from("hello"), 500, 0, 1, 1);
    task.hash_chunk();
    assert!(task.is_finished());
    task.set_index(5);
    assert!(!task.is_finished());
    assert_eq!(task.index(), 5);
    task.hash_chunk();
    assert_eq!(task.text(), hash_chunk("hello", 1, 5, 500));
    task.set_num(2);
    assert!(!task.is_finished());
    assert_eq!(task.text(), "");
    task.hash_chunk();
    let mut expected = hash_chunk("hello", 1, 5, 500);
    expected.push_str(&hash_chunk("hello", 1, 6, 500));
    assert_eq!(task.finish(), expected);
}

#[test]
fn an_empty_range_is_finished_at_once() {
    let task = SeedType::new(String::from("hello"), 500, 2, 1, 0);
    assert!(task.is_finished());
    assert_eq!(task.finish(), "");
}

#[test]
fn ranges_that_come_in_any_order_are_read_in_order() {
    let expected = autohash(String::from("order"), 2, 525, 1).expect("a valid request");
    for order in [[0u64, 1, 2], [2, 1, 0], [1, 2, 0], [2, 0, 1]] {
        let mut done = ChunksDone::new("order", 2, 525, 3).expect("a valid request");
        assert_eq!(done.worker_count(), 3);
        for slot in order {
            assert!(!done.has_reported(slot));
            let mut task = done.task(slot).expect("a task");
            task.hash_chunk();
            assert_eq!(done.place(task), Ok(()));
            assert!(done.has_reported(slot));
        }
        assert_eq!(done.combine(), Ok(expected.clone()));
    }
}

#[test]
fn a_worker_that_does_not_report_fails_the_request() {
    let mut done = ChunksDone::new("missing", 1, 300, 4).expect("a valid request");
    for slot in [0u64, 1, 3] {
        let mut task = done.task(slot).expect("a task");
        task.hash_chunk();
        assert_eq!(done.place(task), Ok(()));
    }
    assert!(!done.has_reported(2));
    assert_eq!(done.combine(), Err(DeriveError::WorkerFailure));

    let done = ChunksDone::new("missing", 1, 300, 4).expect("a valid request");
    assert_eq!(done.combine(), Err(DeriveError::WorkerFailure));
}

#[test]
fn what_is_not_a_finished_task_of_the_plan_is_turned_away() {
    let mut done = ChunksDone::new("strict", 1, 300, 2).expect("a valid request");
    // Not finished.
    let task = done.task(0).expect("a task");
    assert_eq!(done.place(task), Err(DeriveError::WorkerFailure));
    // Another seed, another length, another count.
    for (seed, length, hashes) in [("other", 300, 1), ("strict", 299, 1), ("strict", 300, 2)] {
        let mut task = SeedType::new(String::from(seed), length, 0, hashes, 2);
        task.hash_chunk();
        assert_eq!(done.place(task), Err(DeriveError::WorkerFailure));
    }
    // A range that begins elsewhere, a range of another size, a range beyond the chunks.
    for (index, num) in [(1u64, 2u64), (0, 1), (0, 3), (2, 1), (4, 2), (u64::MAX - 2, 2)] {
        let mut task = SeedType::new(String::from("strict"), 300, index, 1, num);
        task.hash_chunk();
        assert_eq!(done.place(task), Err(DeriveError::WorkerFailure));
    }
    assert!(!done.has_reported(0));
    assert!(!done.has_reported(1));
    // The right ones.
    for (index, num) in [(2u64, 2u64), (0, 2)] {
        let mut task = SeedType::new(String::from("strict"), 300, index, 1, num);
        task.hash_chunk();
        assert_eq!(done.place(task), Ok(()));
    }
    assert_eq!(
        done.combine(),
        Ok(autohash(String::from("strict"), 1, 300, 1).expect("a valid request"))
    );
}

#[test]
fn a_second_report_is_turned_away() {
    let mut done = ChunksDone::new("twice", 1, 150, 2).expect("a valid request");
    for (slot, placed) in [
        (0u64, Ok(())),
        (0, Err(DeriveError::WorkerFailure)),
        (1, Ok(())),
        (1, Err(DeriveError::WorkerFailure)),
        (0, Err(DeriveError::WorkerFailure)),
    ] {
        let mut task = done.task(slot).expect("a task");
        task.hash_chunk();
        assert_eq!(done.place(task), placed);
    }
    assert_eq!(
        done.combine(),
        Ok(autohash(String::from("twice"), 1, 150, 1).expect("a valid request"))
    );
}

#[test]
fn no_gathering_for_no_characters_or_no_worker() {
    assert!(matches!(ChunksDone::new("none", 1, 0, 2), Err(DeriveError::InvalidParameter)));
    assert!(matches!(ChunksDone::new("none", 1, 10, 0), Err(DeriveError::InvalidParameter)));
    let done = ChunksDone::new("none", 1, 10, 9).expect("a valid request");
    assert_eq!(done.worker_count(), 1);
    assert!(done.task(1).is_none());
    assert!(!done.has_reported(1));
}

#[test]
fn a_request_is_planned_hashed_elsewhere_and_gathered() {
    let expected = autohash(String::from("steps"), 3, 400, 1).expect("a valid request");
    let mut request = HashArguments::new(String::from("steps"), 3, 400, 4);
    let mut done = request.plan().expect("a valid request");
    assert_eq!(done.worker_count(), 4);
    for slot in [3u64, 0, 2, 1] {
        let mut task = done.task(slot).expect("a task");
        task.hash_chunk();
        assert_eq!(done.place(task), Ok(()));
    }
    assert_eq!(request.gather(done), Ok(()));
    request.encode();
    assert_eq!(request.finish(), expected);
}

#[test]
fn a_request_that_cannot_be_gathered_stays_as_it_is() {
    // A worker has not reported.
    let mut request = HashArguments::new(String::from("steps"), 3, 400, 2);
    let mut done = request.plan().expect("a valid request");
    let mut task = done.task(1).expect("a task");
    task.hash_chunk();
    assert_eq!(done.place(task), Ok(()));
    assert_eq!(request.gather(done), Err(DeriveError::WorkerFailure));
    assert_eq!(request.finish(), "steps");

    // The gathering of another request.
    for (seed, hashes, length) in [("stops", 3u64, 400u64), ("steps", 2, 400), ("steps", 3, 401)] {
        let mut request = HashArguments::new(String::from("steps"), 3, 400, 2);
        let mut done = ChunksDone::new(seed, hashes, length, 2).expect("a valid request");
        for slot in 0..done.worker_count() {
            let mut task = done.task(slot).expect("a task");
            task.hash_chunk();
            assert_eq!(done.place(task), Ok(()));
        }
        assert!(!done.is_for(&String::from("steps"), 3, 400));
        assert_eq!(request.gather(done), Err(DeriveError::WorkerFailure));
        assert_eq!(request.finish(), "steps");
    }
}

#[test]
fn a_gathering_with_another_number_of_workers_gives_the_same_text() {
    let expected = autohash(String::from("steps"), 3, 400, 1).expect("a valid request");
    let mut request = HashArguments::new(String::from("steps"), 3, 400, 2);
    let mut done = ChunksDone::new("steps", 3, 400, 5).expect("a valid request");
    assert!(done.is_for(&String::from("steps"), 3, 400));
    for slot in 0..done.worker_count() {
        let mut task = done.task(slot).expect("a task");
        task.hash_chunk();
        assert_eq!(done.place(task), Ok(()));
    }
    assert_eq!(request.gather(done), Ok(()));
    request.encode();
    assert_eq!(request.finish(), expected);
}

#[test]
fn a_request_for_nothing_has_no_plan() {
    assert!(matches!(
        HashArguments::new(String::from("steps"), 3, 0, 2).plan(),
        Err(DeriveError::InvalidParameter)
    ));
    assert!(matches!(
        HashArguments::new(String::from("steps"), 3, 400, 0).plan(),
        Err(DeriveError::InvalidParameter)
    ));
}
