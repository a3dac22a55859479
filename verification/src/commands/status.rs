use vstd::prelude::*;

use crate::commands::list::puzzle_solved;
use crate::progress::{Progress, ProgressView};
use crate::puzzle::Puzzle;

verus! {

/// How many of the puzzles are solved.
pub open spec fn solved_count(ps: Seq<Puzzle>, pv: ProgressView) -> nat
    decreases ps.len(),
{
    if ps.len() == 0 {
        0
    } else {
        solved_count(ps.drop_last(), pv) + if pv.is_solved(ps.last().meta.id@) {
            1nat
        } else {
            0nat
        }
    }
}

/// The number of solved puzzles, for the status summary.
pub fn count_solved(puzzles: &Vec<Puzzle>, progress: &Progress) -> (r: usize)
    ensures
        r == solved_count(puzzles@, progress@),
{
    let n = puzzles.len();
    let mut count: usize = 0;
    let mut i: usize = 0;
    assert(puzzles@.take(0) =~= Seq::<Puzzle>::empty());
    while i < n
        invariant
            n == puzzles@.len(),
            i <= n,
            count == solved_count(puzzles@.take(i as int), progress@),
            count <= i,
        decreases n - i,
    {
        assert(puzzles@.take(i + 1).drop_last() =~= puzzles@.take(i as int));
        if progress.is_solved(puzzles[i].meta.id.as_str()) {
            count = count + 1;
        }
        i = i + 1;
    }
    assert(puzzles@.take(n as int) =~= puzzles@);
    count
}

/// The count goes up by one for each solved puzzle and by nothing for an unsolved one,
/// wherever it stands: it counts every solved puzzle, not a run of them.
pub proof fn lemma_solved_count_adds_up(ps: Seq<Puzzle>, p: Puzzle, pv: ProgressView)
    ensures
        solved_count(Seq::empty(), pv) == 0,
        solved_count(ps.push(p), pv) == solved_count(ps, pv) + if pv.is_solved(p.meta.id@) {
            1int
        } else {
            0int
        },
{
    assert(ps.push(p).drop_last() =~= ps);
}

/// The count is the number of solved puzzles: those the filter for solved ones keeps.
pub proof fn lemma_solved_count_is_filter(ps: Seq<Puzzle>, pv: ProgressView)
    ensures
        solved_count(ps, pv) == ps.filter(|p: Puzzle| pv.is_solved(p.meta.id@)).len(),
    decreases ps.len(),
{
    reveal(Seq::filter);
    if ps.len() > 0 {
        lemma_solved_count_is_filter(ps.drop_last(), pv);
    }
}

/// No more puzzles are solved than there are, and all are solved exactly when the
/// count reaches the total.
pub proof fn lemma_solved_count_bounds(ps: Seq<Puzzle>, pv: ProgressView)
    ensures
        solved_count(ps, pv) <= ps.len(),
        solved_count(ps, pv) == ps.len() <==> forall|j: int| 0 <= j < ps.len() ==> puzzle_solved(ps, pv, j),
    decreases ps.len(),
{
    if ps.len() > 0 {
        let init = ps.drop_last();
        lemma_solved_count_bounds(init, pv);
        if forall|j: int| 0 <= j < ps.len() ==> puzzle_solved(ps, pv, j) {
            assert forall|j: int| 0 <= j < init.len() implies puzzle_solved(init, pv, j) by {
                assert(puzzle_solved(ps, pv, j));
            }
            assert(puzzle_solved(ps, pv, ps.len() - 1));
        }
        if solved_count(ps, pv) == ps.len() {
            assert forall|j: int| 0 <= j < ps.len() implies puzzle_solved(ps, pv, j) by {
                if j < init.len() {
                    assert(puzzle_solved(init, pv, j));
                }
            }
        }
    }
}

} // verus!
