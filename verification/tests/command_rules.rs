use bashlings::clock::Timestamp;
use bashlings::commands::hint::take_hint;
use bashlings::commands::list::{rows, ListRow, Marker};
use bashlings::commands::next::{choose_next, NextPuzzle};
use bashlings::commands::reset::wipes_current;
use bashlings::commands::solution::needs_confirmation;
use bashlings::commands::start::{
    first_step, intro_title, needs_network_consent, next_step, stage_run, Stage, Step,
};
use bashlings::commands::status::count_solved;
use bashlings::commands::verify::{
    select_targets, tally, Tally, verify_next, verify_run_id, verify_stage_run, TargetError, VerifyFailure, VerifyStage,
    VerifyStep,
};
use bashlings::progress::{Current, Progress};
use VerifyStage::{CheckAfter, CheckBefore, Setup, Solution};
use bashlings::puzzle::{Meta, Puzzle, Requires};

/// Where a puzzle script lies inside the container.
fn script(stem: &str) -> String {
    format!("/puzzle/{stem}.sh")
}

fn puzzle(id: &str, module: &str) -> Puzzle {
    Puzzle {
        meta: Meta {
            id: id.to_string(),
            title: "T".to_string(),
            module: module.to_string(),
            difficulty: "easy".to_string(),
            estimated_minutes: 1,
            hints: vec!["h1".to_string(), "h2".to_string()],
            tags: vec![],
            requires: Requires { network: false, writable_paths: vec![] },
        },
        dir: format!("/p/{id}"),
    }
}

fn solved(ids: &[&str]) -> Progress {
    let mut p = Progress::default();
    for (i, id) in ids.iter().enumerate() {
        p.record_solved_at(id, Timestamp { secs: i as i64, nanos: 0 });
    }
    p
}

#[test]
fn next_picks_first_unsolved() {
    let ps = vec![puzzle("a/1", "a"), puzzle("a/2", "a"), puzzle("a/3", "a")];
    assert_eq!(choose_next(&ps, &solved(&["a/1"])), NextPuzzle::Start(1));
    assert_eq!(choose_next(&ps, &solved(&["a/2"])), NextPuzzle::Start(0));
    assert_eq!(choose_next(&ps, &solved(&["a/1", "a/2", "a/3"])), NextPuzzle::AllSolved);
    assert_eq!(choose_next(&[].to_vec(), &solved(&[])), NextPuzzle::NoPuzzles);
}

#[test]
fn status_counts_solved() {
    let ps = vec![puzzle("a/1", "a"), puzzle("a/2", "a"), puzzle("b/1", "b")];
    assert_eq!(count_solved(&ps, &solved(&["a/2", "b/1", "zz"])), 2);
    assert_eq!(count_solved(&ps, &solved(&[])), 0);
}

#[test]
fn listing_groups_modules_in_order_and_locks() {
    // Sorted by id, "a-b/y" comes before "a/x"; the listing groups by module, and "a" comes before "a-b".
    let ps = vec![puzzle("a-b/y", "a-b"), puzzle("a/x", "a"), puzzle("a/z", "a")];
    let r = rows(&ps, &solved(&["a/x"]));
    assert_eq!(
        r,
        vec![
            ListRow { index: 1, starts_module: true, marker: Marker::Solved },
            ListRow { index: 2, starts_module: false, marker: Marker::Open },
            ListRow { index: 0, starts_module: true, marker: Marker::Locked },
        ]
    );
}

#[test]
fn listing_of_nothing_solved() {
    let ps = vec![puzzle("m/1", "m"), puzzle("m/2", "m")];
    let r = rows(&ps, &solved(&[]));
    assert_eq!(r[0].marker, Marker::Open);
    assert_eq!(r[1].marker, Marker::Locked);
    assert!(rows(&vec![], &solved(&[])).is_empty());
}

#[test]
fn solution_needs_confirmation_unless_solved() {
    assert!(needs_confirmation(&solved(&[]), "a/1"));
    assert!(!needs_confirmation(&solved(&["a/1"]), "a/1"));
}

fn current(id: &str, shown: u32) -> Current {
    Current {
        puzzle_id: id.to_string(),
        run_id: "r".to_string(),
        workspace: "/w".to_string(),
        hints_shown: shown,
    }
}

#[test]
fn reset_wipes_only_matching_current() {
    assert!(wipes_current(&Some(current("a/1", 0)), "a/1"));
    assert!(!wipes_current(&Some(current("a/1", 0)), "a/2"));
    assert!(!wipes_current(&None, "a/1"));
}

#[test]
fn hints_are_progressive() {
    let mut cur = current("a/1", 0);
    assert_eq!(take_hint(&mut cur, 2), Some(0));
    assert_eq!(take_hint(&mut cur, 2), Some(1));
    assert_eq!(take_hint(&mut cur, 2), None);
    assert_eq!(cur.hints_shown, 2);
    assert_eq!(cur.puzzle_id, "a/1");
}

#[test]
fn session_steps() {
    assert_eq!(first_step(false), Step::Run(Stage::Setup));
    assert_eq!(first_step(true), Step::Run(Stage::Shell));
    assert_eq!(next_step(Stage::Setup, 0), Step::Run(Stage::Shell));
    assert_eq!(next_step(Stage::Setup, 3), Step::SetupFailed(3));
    assert_eq!(next_step(Stage::Shell, 130), Step::Run(Stage::Check));
    assert_eq!(next_step(Stage::Check, 0), Step::Solved);
    assert_eq!(next_step(Stage::Check, 1), Step::NotSolved(1));
    assert_eq!(stage_run(Stage::Check, "/w", false).command, vec!["bash", script("check").as_str()]);
    assert!(stage_run(Stage::Shell, "/w", false).interactive);
}

#[test]
fn intro_heading() {
    let p = puzzle("01-streams/03", "01-streams");
    assert_eq!(intro_title(&p.meta), "== 01-streams/03 — T ==");
}

#[test]
fn verify_steps() {
    assert_eq!(verify_next(Setup, 0), VerifyStep::Run(CheckBefore));
    assert_eq!(verify_next(Setup, 2), VerifyStep::Failed(VerifyFailure::SetupFailed(2)));
    assert_eq!(verify_next(CheckBefore, 0), VerifyStep::Failed(VerifyFailure::CheckPassedBeforeSolution));
    assert_eq!(verify_next(CheckBefore, 1), VerifyStep::Run(Solution));
    assert_eq!(verify_next(Solution, 5), VerifyStep::Failed(VerifyFailure::SolutionFailed(5)));
    assert_eq!(verify_next(Solution, 0), VerifyStep::Run(CheckAfter));
    assert_eq!(verify_next(CheckAfter, 1), VerifyStep::Failed(VerifyFailure::CheckFailedAfterSolution(1)));
    assert_eq!(verify_next(CheckAfter, 0), VerifyStep::Passed);
    assert_eq!(verify_stage_run(Solution, "/w", true).command, vec!["bash", script("solution").as_str()]);
    assert_eq!(verify_stage_run(CheckAfter, "/w", true).command, vec!["bash", script("check").as_str()]);
}

#[test]
fn verify_targets() {
    let ps = vec![puzzle("a/1", "a"), puzzle("a/2", "a")];
    assert_eq!(select_targets(&ps, Some("a/2")), Ok(vec![1]));
    assert_eq!(select_targets(&ps, Some("zz")), Err(TargetError::UnknownPuzzle));
    assert_eq!(select_targets(&ps, None), Ok(vec![0, 1]));
    assert_eq!(select_targets(&vec![], None), Err(TargetError::NoPuzzles));
}

#[test]
fn verify_run_ids() {
    let id = verify_run_id();
    assert!(id.starts_with("verify-"));
    assert_eq!(id.len(), 7 + 32);
}

#[test]
fn network_puzzles_need_consent() {
    let mut p = puzzle("a/1", "a");
    assert!(!needs_network_consent(&p.meta));
    p.meta.requires.network = true;
    assert!(needs_network_consent(&p.meta));
}

#[test]
fn self_test_tally() {
    assert_eq!(tally(&vec![true, false, true]), Tally { passed: 2, total: 3, all_passed: false });
    assert_eq!(tally(&vec![true, true]), Tally { passed: 2, total: 2, all_passed: true });
    assert_eq!(tally(&vec![]), Tally { passed: 0, total: 0, all_passed: true });
}
