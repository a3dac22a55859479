use bashlings::clock::Timestamp;
use bashlings::progress::{Progress, PuzzleProgress, Status};

fn at(secs: i64) -> Timestamp {
    Timestamp { secs, nanos: 0 }
}

#[test]
fn default_progress_is_empty() {
    let p = Progress::default();
    assert_eq!(p.version, 1);
    assert!(p.puzzles.is_empty());
    assert!(!p.is_solved("01-streams/01-redirect"));
    assert!(p.get("01-streams/01-redirect").is_none());
}

#[test]
fn attempts_are_counted() {
    let mut p = Progress::default();
    p.record_attempt_at("a/1", at(10));
    p.record_attempt_at("a/1", at(20));
    let e = p.get("a/1").unwrap();
    assert_eq!(e.attempts, 2);
    assert_eq!(e.status, Status::Attempted);
    assert_eq!(e.last_attempted_at, Some(at(20)));
    assert_eq!(e.first_solved_at, None);
    assert!(!p.is_solved("a/1"));
    assert_eq!(p.puzzles.len(), 1);
}

#[test]
fn solving_marks_solved_and_keeps_first_time() {
    let mut p = Progress::default();
    p.record_attempt_at("a/1", at(10));
    p.record_solved_at("a/1", at(20));
    assert!(p.is_solved("a/1"));
    let e = p.get("a/1").unwrap();
    assert_eq!(e.first_solved_at, Some(at(20)));
    assert_eq!(e.attempts, 1);
    p.record_solved_at("a/1", at(30));
    let e = p.get("a/1").unwrap();
    assert_eq!(e.first_solved_at, Some(at(20)));
    assert_eq!(e.last_attempted_at, Some(at(30)));
}

#[test]
fn solving_an_unseen_puzzle() {
    let mut p = Progress::default();
    p.record_solved_at("b/2", at(5));
    let e = p.get("b/2").unwrap();
    assert_eq!(e.status, Status::Solved);
    assert_eq!(e.attempts, 0);
    assert_eq!(e.first_solved_at, Some(at(5)));
}

#[test]
fn rerunning_keeps_solved_flag() {
    let mut p = Progress::default();
    p.record_solved_at("a/1", at(1));
    p.record_attempt_at("a/1", at(2));
    assert!(p.is_solved("a/1"));
    assert_eq!(p.get("a/1").unwrap().attempts, 1);
}

#[test]
fn other_puzzles_untouched() {
    let mut p = Progress::default();
    p.record_attempt_at("a/1", at(1));
    p.record_solved_at("a/2", at(2));
    p.record_attempt_at("a/1", at(3));
    assert_eq!(p.get("a/2").unwrap().last_attempted_at, Some(at(2)));
    assert_eq!(p.get("a/1").unwrap().attempts, 2);
    assert_eq!(p.puzzles.len(), 2);
}

#[test]
fn clock_backed_recording() {
    let mut p = Progress::default();
    p.record_attempt("c/1");
    let e = p.get("c/1").unwrap();
    assert_eq!(e.attempts, 1);
    assert!(e.last_attempted_at.is_some());
    p.record_solved("c/1");
    let e = p.get("c/1").unwrap();
    assert!(p.is_solved("c/1"));
    assert!(e.first_solved_at.unwrap().secs > 1_600_000_000);
}

fn record(attempts: u32) -> PuzzleProgress {
    PuzzleProgress {
        status: Status::Attempted,
        attempts,
        hints_shown: 0,
        first_solved_at: None,
        last_attempted_at: None,
    }
}

#[test]
fn entries_must_have_distinct_ids() {
    let ok = Progress::from_entries(1, vec![("a".to_string(), record(1)), ("b".to_string(), record(2))]);
    let p = ok.unwrap();
    assert_eq!(p.get("b").unwrap().attempts, 2);
    let dup = Progress::from_entries(1, vec![("a".to_string(), record(1)), ("a".to_string(), record(2))]);
    assert!(dup.is_none());
    assert!(Progress::from_entries(3, vec![]).is_some());
}
