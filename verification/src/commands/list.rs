use vstd::prelude::*;

use crate::order::{lemma_insert_pos_at, seq_le, stable_sort, str_le};
use crate::progress::{Progress, ProgressView};
use crate::puzzle::Puzzle;

verus! {

/// How a puzzle shows in the listing.
#[derive(Clone, Copy, Debug, PartialEq, Eq, Structural)]
pub enum Marker {
    /// Already solved.
    Solved,
    /// Not solved, and every puzzle listed before it is: the one to work on.
    Open,
    /// Not solved, behind an unsolved puzzle.
    Locked,
}

/// One line of the listing.
#[derive(Clone, Copy, Debug, PartialEq, Eq, Structural)]
pub struct ListRow {
    /// Position of the puzzle in the list it was given.
    pub index: usize,
    /// The first puzzle of its module, so the module's heading comes before it.
    pub starts_module: bool,
    pub marker: Marker,
}

/// Positions into `ps`, keyed by the module of the puzzle there.
pub open spec fn module_key(ps: Seq<Puzzle>) -> spec_fn(usize) -> Seq<char> {
    |i: usize| ps[i as int].meta.module@
}

/// The positions `0..n`.
pub open spec fn positions(n: nat) -> Seq<usize> {
    Seq::new(n, |i: int| i as usize)
}

/// The order in which puzzles are listed: grouped by module, modules in order, and
/// within a module in the order given.
pub open spec fn listing_order(ps: Seq<Puzzle>) -> Seq<usize> {
    stable_sort(positions(ps.len()), module_key(ps))
}

pub open spec fn puzzle_solved(ps: Seq<Puzzle>, pv: ProgressView, i: int) -> bool {
    pv.is_solved(ps[i].meta.id@)
}

/// The marker of the `k`-th listed puzzle.
pub open spec fn marker_at(ps: Seq<Puzzle>, pv: ProgressView, order: Seq<usize>, k: int) -> Marker {
    if puzzle_solved(ps, pv, order[k] as int) {
        Marker::Solved
    } else if forall|j: int| 0 <= j < k ==> puzzle_solved(ps, pv, #[trigger] order[j] as int) {
        Marker::Open
    } else {
        Marker::Locked
    }
}

/// The listing's rows, in listing order, each with its marker.
pub open spec fn rows_spec(ps: Seq<Puzzle>, pv: ProgressView, r: Seq<ListRow>) -> bool {
    let order = listing_order(ps);
    &&& r.len() == ps.len()
    &&& forall|k: int|
        0 <= k < r.len() ==> {
            &&& (#[trigger] r[k]).index == order[k]
            &&& r[k].starts_module == (k == 0 || ps[order[k - 1] as int].meta.module@ != ps[order[
                k
            ] as int].meta.module@)
            &&& r[k].marker == marker_at(ps, pv, order, k)
        }
}

fn group_by_module(puzzles: &Vec<Puzzle>) -> (order: Vec<usize>)
    ensures
        order@ == listing_order(puzzles@),
        forall|k: int| 0 <= k < order@.len() ==> #[trigger] order@[k] < puzzles@.len(),
{
    let ghost key = module_key(puzzles@);
    let ghost all = positions(puzzles@.len());
    let n = puzzles.len();
    let mut out: Vec<usize> = Vec::new();
    let mut i: usize = 0;
    assert(all.take(0) =~= Seq::<usize>::empty());
    while i < n
        invariant
            n == puzzles@.len(),
            all == positions(n as nat),
            key == module_key(puzzles@),
            i <= n,
            out@ == stable_sort(all.take(i as int), key),
            forall|k: int| 0 <= k < out@.len() ==> #[trigger] out@[k] < i,
        decreases n - i,
    {
        let m = out.len();
        let mut pos: usize = 0;
        while pos < m && str_le(puzzles[out[pos]].meta.module.as_str(), puzzles[i].meta.module.as_str())
            invariant
                n == puzzles@.len(),
                i < n,
                m == out@.len(),
                pos <= m,
                forall|k: int| 0 <= k < out@.len() ==> #[trigger] out@[k] < i,
                forall|j: int| 0 <= j < pos ==> seq_le(key(#[trigger] out@[j]), key(i)),
                key == module_key(puzzles@),
            decreases m - pos,
        {
            pos = pos + 1;
        }
        proof {
            lemma_insert_pos_at(out@, key, key(i), pos as int);
            assert(all.take(i + 1).drop_last() =~= all.take(i as int));
            assert(all.take(i + 1).last() == i);
        }
        out.insert(pos, i);
        i = i + 1;
    }
    assert(all.take(n as int) =~= all);
    out
}

/// The rows of the listing of `puzzles` against `progress`.
pub fn rows(puzzles: &Vec<Puzzle>, progress: &Progress) -> (r: Vec<ListRow>)
    ensures
        rows_spec(puzzles@, progress@, r@),
{
    let ghost ps = puzzles@;
    let ghost pv = progress@;
    let order = group_by_module(puzzles);
    proof {
        crate::order::lemma_stable_sort_permutes(positions(ps.len()), module_key(ps));
    }
    let n = order.len();
    let mut out: Vec<ListRow> = Vec::new();
    let mut unlocked = true;
    let mut k: usize = 0;
    while k < n
        invariant
            n == order@.len(),
            n == ps.len(),
            ps == puzzles@,
            pv == progress@,
            order@ == listing_order(ps),
            forall|j: int| 0 <= j < n ==> #[trigger] order@[j] < ps.len(),
            k <= n,
            out@.len() == k,
            unlocked == (forall|j: int| 0 <= j < k ==> puzzle_solved(ps, pv, #[trigger] order@[j] as int)),
            forall|j: int|
                0 <= j < k ==> {
                    &&& (#[trigger] out@[j]).index == order@[j]
                    &&& out@[j].starts_module == (j == 0 || ps[order@[j - 1] as int].meta.module@
                        != ps[order@[j] as int].meta.module@)
                    &&& out@[j].marker == marker_at(ps, pv, order@, j)
                },
        decreases n - k,
    {
        let idx = order[k];
        let solved = progress.is_solved(puzzles[idx].meta.id.as_str());
        let starts = if k == 0 {
            true
        } else {
            !crate::text::str_eq(
                puzzles[order[k - 1]].meta.module.as_str(),
                puzzles[idx].meta.module.as_str(),
            )
        };
        let marker = if solved {
            Marker::Solved
        } else if unlocked {
            Marker::Open
        } else {
            Marker::Locked
        };
        out.push(ListRow { index: idx, starts_module: starts, marker });
        if !solved {
            unlocked = false;
        }
        proof {
            if !solved {
                assert(!puzzle_solved(ps, pv, order@[k as int] as int));
            }
        }
        k = k + 1;
    }
    out
}

/// At most one listed puzzle is open: the first unsolved one.
pub proof fn lemma_single_open_puzzle(ps: Seq<Puzzle>, pv: ProgressView, r: Seq<ListRow>, a: int, b: int)
    requires
        rows_spec(ps, pv, r),
        0 <= a < b < r.len(),
        r[a].marker == Marker::Open,
    ensures
        r[b].marker == Marker::Locked || r[b].marker == Marker::Solved,
{
    let order = listing_order(ps);
    assert(r[a].marker == marker_at(ps, pv, order, a));
    assert(r[b].marker == marker_at(ps, pv, order, b));
    assert(!puzzle_solved(ps, pv, order[a] as int));
}

/// What a row's marker and heading mean, in terms of the rows themselves: a puzzle is
/// marked solved exactly when it is solved, open exactly when it is unsolved and every
/// puzzle listed before it is solved; a module heading starts the listing and every change
/// of module.
pub proof fn lemma_row_meaning(ps: Seq<Puzzle>, pv: ProgressView, r: Seq<ListRow>, k: int)
    requires
        rows_spec(ps, pv, r),
        0 <= k < r.len(),
    ensures
        r[k].marker == Marker::Solved <==> pv.is_solved(ps[r[k].index as int].meta.id@),
        r[k].marker == Marker::Open <==> (!pv.is_solved(ps[r[k].index as int].meta.id@) && forall|j: int|
            0 <= j < k ==> pv.is_solved(ps[(#[trigger] r[j]).index as int].meta.id@)),
        r[k].marker == Marker::Locked <==> (!pv.is_solved(ps[r[k].index as int].meta.id@) && exists|j: int|
            0 <= j < k && !pv.is_solved(ps[(#[trigger] r[j]).index as int].meta.id@)),
        r[k].starts_module <==> (k == 0 || ps[r[k - 1].index as int].meta.module@ != ps[r[k].index as int].meta.module@),
{
    let order = listing_order(ps);
    lemma_listing_is_complete(ps);
    assert(r[k].index == order[k]);
    if k > 0 {
        assert(r[k - 1].index == order[k - 1]);
    }
    let all_before = forall|j: int| 0 <= j < k ==> puzzle_solved(ps, pv, #[trigger] order[j] as int);
    let all_rows = forall|j: int| 0 <= j < k ==> pv.is_solved(ps[(#[trigger] r[j]).index as int].meta.id@);
    if all_before {
        assert forall|j: int| 0 <= j < k implies pv.is_solved(ps[(#[trigger] r[j]).index as int].meta.id@) by {
            assert(r[j].index == order[j]);
            assert(puzzle_solved(ps, pv, order[j] as int));
        }
    }
    if all_rows {
        assert forall|j: int| 0 <= j < k implies puzzle_solved(ps, pv, #[trigger] order[j] as int) by {
            assert(r[j].index == order[j]);
        }
    }
    assert(all_before == all_rows);
}

/// Within a module, puzzles are listed in the order they were given.
pub proof fn lemma_listing_keeps_order_within_module(ps: Seq<Puzzle>)
    requires
        ps.len() <= usize::MAX,
    ensures
        forall|i: int, j: int|
            0 <= i < j < listing_order(ps).len() && ps[#[trigger] listing_order(ps)[i] as int].meta.module@
                == ps[#[trigger] listing_order(ps)[j] as int].meta.module@ ==> listing_order(ps)[i] < listing_order(
                ps,
            )[j],
{
    lemma_stable_sort_positions(ps.len(), module_key(ps));
}

proof fn lemma_stable_sort_positions(n: nat, key: spec_fn(usize) -> Seq<char>)
    requires
        n <= usize::MAX,
    ensures
        forall|i: int| 0 <= i < stable_sort(positions(n), key).len() ==> #[trigger] stable_sort(positions(n), key)[i] < n,
        forall|i: int, j: int|
            0 <= i < j < stable_sort(positions(n), key).len() && key(#[trigger] stable_sort(positions(n), key)[i])
                == key(#[trigger] stable_sort(positions(n), key)[j]) ==> stable_sort(positions(n), key)[i]
                < stable_sort(positions(n), key)[j],
    decreases n,
{
    if n > 0 {
        let m = (n - 1) as nat;
        assert(positions(n).drop_last() =~= positions(m));
        assert(positions(n).last() == m as usize);
        lemma_stable_sort_positions(m, key);
        let t = stable_sort(positions(m), key);
        crate::order::lemma_stable_sort_sorted(positions(m), key);
        crate::order::lemma_stable_sort_permutes(positions(m), key);
        let x = m as usize;
        let kx = key(x);
        crate::order::lemma_insert_pos_bounds(t, key, kx);
        let p = crate::order::insert_pos(t, key, kx) as int;
        let r = stable_sort(positions(n), key);
        assert(r == t.insert(p, x));
        assert forall|i: int| 0 <= i < r.len() implies #[trigger] r[i] < n by {
            if i < p {
                assert(r[i] == t[i]);
            } else if i > p {
                assert(r[i] == t[i - 1]);
            }
        }
        assert forall|i: int, j: int| 0 <= i < j < r.len() && key(#[trigger] r[i]) == key(#[trigger] r[j]) implies r[i] < r[j] by {
            if j < p {
                assert(r[i] == t[i] && r[j] == t[j]);
                assert(t[i] < t[j]);
            } else if j == p {
                assert(r[i] == t[i]);
                assert(t[i] < m);
            } else if i < p {
                assert(r[i] == t[i] && r[j] == t[j - 1]);
                assert(t[i] < t[j - 1]);
            } else if i == p {
                assert(r[j] == t[j - 1]);
                assert(key(t[j - 1]) == kx);
                if j - 1 == p {
                    crate::order::lemma_seq_le_reflexive(kx);
                } else {
                    assert(crate::order::seq_le(key(t[p]), key(t[j - 1])));
                }
                assert(false);
            } else {
                assert(r[i] == t[i - 1] && r[j] == t[j - 1]);
                assert(t[i - 1] < t[j - 1]);
            }
        }
    }
}

/// Every puzzle is listed exactly once.
pub proof fn lemma_listing_is_complete(ps: Seq<Puzzle>)
    ensures
        listing_order(ps).to_multiset() =~= positions(ps.len()).to_multiset(),
        listing_order(ps).len() == ps.len(),
{
    crate::order::lemma_stable_sort_permutes(positions(ps.len()), module_key(ps));
}

/// Modules are listed in order, each once: the puzzles of a module are listed together.
pub proof fn lemma_listing_grouped(ps: Seq<Puzzle>)
    ensures
        forall|i: int, j: int|
            0 <= i < j < listing_order(ps).len() ==> seq_le(
                ps[#[trigger] listing_order(ps)[i] as int].meta.module@,
                ps[#[trigger] listing_order(ps)[j] as int].meta.module@,
            ),
{
    crate::order::lemma_stable_sort_sorted(positions(ps.len()), module_key(ps));
}

} // verus!
