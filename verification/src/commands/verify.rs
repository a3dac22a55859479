use vstd::prelude::*;

use crate::container::{run_check, run_setup, run_solution, runs_script, PodmanRun, Script};
use crate::puzzle::{find_puzzle, Puzzle};
use crate::text::join2;
use crate::workspace::{is_run_id, new_run_id};

verus! {

/// The containers of a self-test, in order.
#[derive(Clone, Copy, Debug, PartialEq, Eq, Structural)]
pub enum VerifyStage {
    Setup,
    /// The judging script on the freshly set-up workspace: it must fail.
    CheckBefore,
    Solution,
    /// The judging script after the solution: it must pass.
    CheckAfter,
}

/// Why a puzzle failed its self-test.
#[derive(Clone, Copy, Debug, PartialEq, Eq, Structural)]
pub enum VerifyFailure {
    SetupFailed(i32),
    CheckPassedBeforeSolution,
    SolutionFailed(i32),
    CheckFailedAfterSolution(i32),
}

/// What a self-test does next.
#[derive(Clone, Copy, Debug, PartialEq, Eq, Structural)]
pub enum VerifyStep {
    Run(VerifyStage),
    Passed,
    Failed(VerifyFailure),
}

/// Why no self-test runs.
#[derive(Clone, Copy, Debug, PartialEq, Eq, Structural)]
pub enum TargetError {
    /// The id asked for names no puzzle.
    UnknownPuzzle,
    /// There are no puzzles to verify.
    NoPuzzles,
}

/// The step that follows `stage` when its container exited with `exit`.
pub open spec fn verify_step_after(stage: VerifyStage, exit: i32) -> VerifyStep {
    match stage {
        VerifyStage::Setup => if exit != 0 {
            VerifyStep::Failed(VerifyFailure::SetupFailed(exit))
        } else {
            VerifyStep::Run(VerifyStage::CheckBefore)
        },
        VerifyStage::CheckBefore => if exit == 0 {
            VerifyStep::Failed(VerifyFailure::CheckPassedBeforeSolution)
        } else {
            VerifyStep::Run(VerifyStage::Solution)
        },
        VerifyStage::Solution => if exit != 0 {
            VerifyStep::Failed(VerifyFailure::SolutionFailed(exit))
        } else {
            VerifyStep::Run(VerifyStage::CheckAfter)
        },
        VerifyStage::CheckAfter => if exit != 0 {
            VerifyStep::Failed(VerifyFailure::CheckFailedAfterSolution(exit))
        } else {
            VerifyStep::Passed
        },
    }
}

/// The step after `stage`'s container exited with `exit`.
pub fn verify_next(stage: VerifyStage, exit: i32) -> (r: VerifyStep)
    ensures
        r == verify_step_after(stage, exit),
{
    match stage {
        VerifyStage::Setup => if exit != 0 {
            VerifyStep::Failed(VerifyFailure::SetupFailed(exit))
        } else {
            VerifyStep::Run(VerifyStage::CheckBefore)
        },
        VerifyStage::CheckBefore => if exit == 0 {
            VerifyStep::Failed(VerifyFailure::CheckPassedBeforeSolution)
        } else {
            VerifyStep::Run(VerifyStage::Solution)
        },
        VerifyStage::Solution => if exit != 0 {
            VerifyStep::Failed(VerifyFailure::SolutionFailed(exit))
        } else {
            VerifyStep::Run(VerifyStage::CheckAfter)
        },
        VerifyStage::CheckAfter => if exit != 0 {
            VerifyStep::Failed(VerifyFailure::CheckFailedAfterSolution(exit))
        } else {
            VerifyStep::Passed
        },
    }
}

/// The container that runs `stage` in `workspace`.
pub fn verify_stage_run(stage: VerifyStage, workspace: &str, allow_network: bool) -> (r: PodmanRun)
    ensures
        runs_script(
            r,
            workspace@,
            allow_network,
            match stage {
                VerifyStage::Setup => Script::Setup,
                VerifyStage::Solution => Script::Solution,
                _ => Script::Check,
            },
        ),
{
    match stage {
        VerifyStage::Setup => run_setup(workspace, allow_network),
        VerifyStage::CheckBefore => run_check(workspace, allow_network),
        VerifyStage::Solution => run_solution(workspace, allow_network),
        VerifyStage::CheckAfter => run_check(workspace, allow_network),
    }
}

/// The outcome of a self-test whose four containers exit with these codes (a stage not
/// reached leaves its code unused).
pub open spec fn verify_outcome(setup: i32, before: i32, solution: i32, after: i32) -> VerifyStep {
    match verify_step_after(VerifyStage::Setup, setup) {
        VerifyStep::Run(_) => match verify_step_after(VerifyStage::CheckBefore, before) {
            VerifyStep::Run(_) => match verify_step_after(VerifyStage::Solution, solution) {
                VerifyStep::Run(_) => verify_step_after(VerifyStage::CheckAfter, after),
                other => other,
            },
            other => other,
        },
        other => other,
    }
}

/// A puzzle passes its self-test exactly when setup succeeds, the check fails on the
/// unsolved workspace, the solution succeeds and the check then passes.
pub proof fn lemma_verify_verdict(setup: i32, before: i32, solution: i32, after: i32)
    ensures
        verify_outcome(setup, before, solution, after) == VerifyStep::Passed <==> (setup == 0 && before != 0
            && solution == 0 && after == 0),
        verify_outcome(setup, before, solution, after) != VerifyStep::Run(VerifyStage::Setup),
        setup != 0 ==> verify_outcome(setup, before, solution, after) == VerifyStep::Failed(
            VerifyFailure::SetupFailed(setup),
        ),
        setup == 0 && before == 0 ==> verify_outcome(setup, before, solution, after) == VerifyStep::Failed(
            VerifyFailure::CheckPassedBeforeSolution,
        ),
        setup == 0 && before != 0 && solution != 0 ==> verify_outcome(setup, before, solution, after)
            == VerifyStep::Failed(VerifyFailure::SolutionFailed(solution)),
        setup == 0 && before != 0 && solution == 0 && after != 0 ==> verify_outcome(setup, before, solution, after)
            == VerifyStep::Failed(VerifyFailure::CheckFailedAfterSolution(after)),
{
}

/// The puzzles to self-test: the one named, or all of them.
pub fn select_targets(puzzles: &Vec<Puzzle>, puzzle_id: Option<&str>) -> (r: Result<Vec<usize>, TargetError>)
    ensures
        match puzzle_id {
            Some(id) => match r {
                Ok(t) => t@.len() == 1 && t@[0] < puzzles@.len() && puzzles@[t@[0] as int].meta.id@ == id@
                    && forall|j: int| 0 <= j < t@[0] ==> (#[trigger] puzzles@[j]).meta.id@ != id@,
                Err(e) => e == TargetError::UnknownPuzzle && forall|j: int|
                    0 <= j < puzzles@.len() ==> (#[trigger] puzzles@[j]).meta.id@ != id@,
            },
            None => match r {
                Ok(t) => puzzles@.len() > 0 && t@ == Seq::new(puzzles@.len(), |i: int| i as usize),
                Err(e) => e == TargetError::NoPuzzles && puzzles@.len() == 0,
            },
        },
{
    match puzzle_id {
        Some(id) => match find_puzzle(puzzles, id) {
            Some(i) => {
                let mut t: Vec<usize> = Vec::new();
                t.push(i);
                Ok(t)
            },
            None => Err(TargetError::UnknownPuzzle),
        },
        None => {
            let n = puzzles.len();
            if n == 0 {
                return Err(TargetError::NoPuzzles);
            }
            let mut t: Vec<usize> = Vec::new();
            let mut i: usize = 0;
            while i < n
                invariant
                    n == puzzles@.len(),
                    i <= n,
                    t@ == Seq::new(i as nat, |k: int| k as usize),
                decreases n - i,
            {
                t.push(i);
                assert(t@ =~= Seq::new((i + 1) as nat, |k: int| k as usize));
                i = i + 1;
            }
            Ok(t)
        },
    }
}

/// The summary of a self-test run.
#[derive(Clone, Copy, Debug, PartialEq, Eq, Structural)]
pub struct Tally {
    /// Puzzles that passed.
    pub passed: usize,
    /// Puzzles tested.
    pub total: usize,
    /// The run as a whole succeeds: no puzzle failed.
    pub all_passed: bool,
}

/// How many of the outcomes are passes.
pub open spec fn passes(outcomes: Seq<bool>) -> nat
    decreases outcomes.len(),
{
    if outcomes.len() == 0 {
        0
    } else {
        passes(outcomes.drop_last()) + if outcomes.last() {
            1nat
        } else {
            0nat
        }
    }
}

/// The summary of the per-puzzle outcomes (`true` for a pass), in any order.
pub fn tally(outcomes: &Vec<bool>) -> (r: Tally)
    ensures
        r.total == outcomes@.len(),
        r.passed == passes(outcomes@),
        r.all_passed == (forall|i: int| 0 <= i < outcomes@.len() ==> #[trigger] outcomes@[i]),
{
    let n = outcomes.len();
    let mut passed: usize = 0;
    let mut all = true;
    let mut i: usize = 0;
    assert(outcomes@.take(0) =~= Seq::<bool>::empty());
    while i < n
        invariant
            n == outcomes@.len(),
            i <= n,
            passed == passes(outcomes@.take(i as int)),
            passed <= i,
            all == (forall|k: int| 0 <= k < i ==> #[trigger] outcomes@[k]),
        decreases n - i,
    {
        assert(outcomes@.take(i + 1).drop_last() =~= outcomes@.take(i as int));
        if outcomes[i] {
            passed = passed + 1;
        } else {
            all = false;
        }
        i = i + 1;
    }
    assert(outcomes@.take(n as int) =~= outcomes@);
    Tally { passed, total: n, all_passed: all }
}

/// Each pass adds one and each failure nothing, wherever it stands: the failures are
/// exactly the outcomes that are not passes.
pub proof fn lemma_passes_add_up(outcomes: Seq<bool>, b: bool)
    ensures
        passes(Seq::empty()) == 0,
        passes(outcomes.push(b)) == passes(outcomes) + if b {
            1int
        } else {
            0int
        },
        passes(outcomes) + outcomes.filter(|x: bool| !x).len() == outcomes.len(),
    decreases outcomes.len(),
{
    reveal(Seq::filter);
    assert(outcomes.push(b).drop_last() =~= outcomes);
    if outcomes.len() > 0 {
        lemma_passes_add_up(outcomes.drop_last(), b);
    }
}

/// The run succeeds exactly when every puzzle passed, that is when the passes reach the total;
/// the failures are the rest.
pub proof fn lemma_tally_verdict(outcomes: Seq<bool>)
    ensures
        passes(outcomes) <= outcomes.len(),
        passes(outcomes) == outcomes.len() <==> (forall|i: int| 0 <= i < outcomes.len() ==> #[trigger] outcomes[i]),
    decreases outcomes.len(),
{
    if outcomes.len() > 0 {
        let init = outcomes.drop_last();
        lemma_tally_verdict(init);
        if forall|i: int| 0 <= i < outcomes.len() ==> #[trigger] outcomes[i] {
            assert forall|i: int| 0 <= i < init.len() implies #[trigger] init[i] by {
                assert(outcomes[i]);
            }
            assert(outcomes[outcomes.len() - 1]);
        }
        if passes(outcomes) == outcomes.len() {
            assert forall|i: int| 0 <= i < outcomes.len() implies #[trigger] outcomes[i] by {
                if i < init.len() {
                    assert(init[i]);
                }
            }
        }
    }
}

/// A fresh run id for a self-test's workspace: `verify-` and a run id.
pub fn verify_run_id() -> (r: String)
    ensures
        exists|id: Seq<char>| is_run_id(id) && r@ == "verify-"@ + id,
{
    let id = new_run_id();
    join2("verify-", id.as_str())
}

} // verus!
