use vstd::prelude::*;

use crate::progress::Progress;

verus! {

/// Revealing a solution needs the learner's confirmation unless the puzzle is solved.
pub fn needs_confirmation(progress: &Progress, puzzle_id: &str) -> (r: bool)
    ensures
        r == !progress@.is_solved(puzzle_id@),
{
    !progress.is_solved(puzzle_id)
}

} // verus!
