use vstd::prelude::*;

use crate::container::{run_check, run_interactive_shell, run_setup, PodmanRun, runs_script, Script, IMAGE_TAG};
use crate::puzzle::Meta;
use crate::text::strs;

verus! {

/// The containers that one session on a puzzle runs, in order.
#[derive(Clone, Copy, Debug, PartialEq, Eq, Structural)]
pub enum Stage {
    /// The setup script prepares the fresh workspace.
    Setup,
    /// The learner's interactive shell.
    Shell,
    /// The puzzle's script judges the workspace.
    Check,
}

/// What a session does next.
#[derive(Clone, Copy, Debug, PartialEq, Eq, Structural)]
pub enum Step {
    /// Run the container of this stage.
    Run(Stage),
    /// The setup script failed with this exit code: the session ends in an error.
    SetupFailed(i32),
    /// The judging script passed: record the puzzle as solved.
    Solved,
    /// The judging script failed with this exit code: not solved yet.
    NotSolved(i32),
}

/// The step that follows `stage` when its container exited with `exit`.
pub open spec fn step_after(stage: Stage, exit: i32) -> Step {
    match stage {
        Stage::Setup => if exit != 0 {
            Step::SetupFailed(exit)
        } else {
            Step::Run(Stage::Shell)
        },
        Stage::Shell => Step::Run(Stage::Check),
        Stage::Check => if exit == 0 {
            Step::Solved
        } else {
            Step::NotSolved(exit)
        },
    }
}

/// A fresh session starts with setup; a retry drops back into the shell.
pub fn first_step(retry: bool) -> (r: Step)
    ensures
        r == (if retry {
            Step::Run(Stage::Shell)
        } else {
            Step::Run(Stage::Setup)
        }),
{
    if retry {
        Step::Run(Stage::Shell)
    } else {
        Step::Run(Stage::Setup)
    }
}

/// The step after `stage`'s container exited with `exit`.
pub fn next_step(stage: Stage, exit: i32) -> (r: Step)
    ensures
        r == step_after(stage, exit),
{
    match stage {
        Stage::Setup => if exit != 0 {
            Step::SetupFailed(exit)
        } else {
            Step::Run(Stage::Shell)
        },
        Stage::Shell => Step::Run(Stage::Check),
        Stage::Check => if exit == 0 {
            Step::Solved
        } else {
            Step::NotSolved(exit)
        },
    }
}

/// The container that runs `stage` in `workspace`.
pub fn stage_run(stage: Stage, workspace: &str, allow_network: bool) -> (r: PodmanRun)
    ensures
        stage == Stage::Setup ==> runs_script(r, workspace@, allow_network, Script::Setup),
        stage == Stage::Check ==> runs_script(r, workspace@, allow_network, Script::Check),
        stage == Stage::Shell ==> {
            &&& r.workspace@ == workspace@
            &&& r.image@ == IMAGE_TAG@
            &&& r.allow_network == allow_network
            &&& r.interactive
            &&& strs(r.command@) == seq!["bash"@]
            &&& r.terminal is None
        },
{
    match stage {
        Stage::Setup => run_setup(workspace, allow_network),
        Stage::Shell => run_interactive_shell(workspace, allow_network),
        Stage::Check => run_check(workspace, allow_network),
    }
}

/// A puzzle that asks for the network runs only after the learner agrees: every session
/// on it (start, reset, retry) asks first.
pub fn needs_network_consent(meta: &Meta) -> (r: bool)
    ensures
        r == meta.requires.network,
{
    meta.requires.network
}

/// The heading shown before a puzzle's prompt: `== id — title ==`.
pub fn intro_title(meta: &Meta) -> (r: String)
    ensures
        r@ == "== "@ + meta.id@ + " — "@ + meta.title@ + " =="@,
{
    let mut r = String::from_str("== ");
    r.append(meta.id.as_str());
    r.append(" — ");
    r.append(meta.title.as_str());
    r.append(" ==");
    r
}

/// A session solves the puzzle exactly when setup succeeds and, after the shell, the
/// check passes; a failed setup ends it before the learner gets a shell.
pub proof fn lemma_session_outcome(setup_exit: i32, shell_exit: i32, check_exit: i32)
    ensures
        step_after(Stage::Setup, setup_exit) == Step::Run(Stage::Shell) <==> setup_exit == 0,
        step_after(Stage::Shell, shell_exit) == Step::Run(Stage::Check),
        step_after(Stage::Check, check_exit) == Step::Solved <==> check_exit == 0,
        setup_exit != 0 ==> step_after(Stage::Setup, setup_exit) == Step::SetupFailed(setup_exit),
        check_exit != 0 ==> step_after(Stage::Check, check_exit) == Step::NotSolved(check_exit),
{
}

} // verus!
