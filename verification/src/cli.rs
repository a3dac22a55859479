use vstd::prelude::*;

verus! {

/// The command line: a global verbosity flag and one command.
#[derive(Clone, Debug)]
pub struct Cli {
    pub verbose: bool,
    pub command: Command,
}

/// The commands of the runner.
#[derive(Clone, Debug)]
pub enum Command {
    /// Build the base container image.
    Init,
    /// Show modules and progress.
    List,
    /// Show overall progress summary.
    Status,
    /// Work on the next unsolved puzzle.
    Next,
    /// Work on a specific puzzle by id.
    Start { puzzle_id: String },
    /// Relaunch a container against the in-progress workspace.
    Retry,
    /// Wipe the workspace, re-copy the template, restart the puzzle.
    Reset { puzzle_id: String },
    /// Show the next progressive hint for the in-progress puzzle.
    Hint,
    /// Reveal the reference solution for a puzzle.
    Solution { puzzle_id: String },
    /// Self-test: run setup, assert the judging script fails, run the solution, assert it passes.
    Verify { puzzle_id: Option<String> },
}

} // verus!
