use vstd::prelude::*;

use crate::commands::list::puzzle_solved;
use crate::progress::Progress;
use crate::puzzle::Puzzle;

verus! {

/// What `next` does.
#[derive(Clone, Copy, Debug, PartialEq, Eq, Structural)]
pub enum NextPuzzle {
    /// Start the puzzle at this position: the first one not solved.
    Start(usize),
    /// Every puzzle is solved.
    AllSolved,
    /// There are no puzzles at all.
    NoPuzzles,
}

/// The puzzle to work on next: the first unsolved one, in the order given.
pub fn choose_next(puzzles: &Vec<Puzzle>, progress: &Progress) -> (r: NextPuzzle)
    ensures
        match r {
            NextPuzzle::Start(i) => {
                &&& i < puzzles@.len()
                &&& !puzzle_solved(puzzles@, progress@, i as int)
                &&& forall|j: int| 0 <= j < i ==> puzzle_solved(puzzles@, progress@, j)
            },
            NextPuzzle::AllSolved => puzzles@.len() > 0 && forall|j: int|
                0 <= j < puzzles@.len() ==> puzzle_solved(puzzles@, progress@, j),
            NextPuzzle::NoPuzzles => puzzles@.len() == 0,
        },
{
    let n = puzzles.len();
    let mut i: usize = 0;
    while i < n
        invariant
            n == puzzles@.len(),
            i <= n,
            forall|j: int| 0 <= j < i ==> puzzle_solved(puzzles@, progress@, j),
        decreases n - i,
    {
        if !progress.is_solved(puzzles[i].meta.id.as_str()) {
            return NextPuzzle::Start(i);
        }
        i = i + 1;
    }
    if n == 0 {
        NextPuzzle::NoPuzzles
    } else {
        NextPuzzle::AllSolved
    }
}

} // verus!
