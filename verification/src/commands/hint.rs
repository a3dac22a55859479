use vstd::prelude::*;

use crate::progress::Current;

verus! {

/// The hint shown when `shown` hints of `count` have been shown already.
pub open spec fn next_hint(shown: nat, count: nat) -> Option<nat> {
    if shown < count {
        Some(shown)
    } else {
        None
    }
}

/// How many hints count as shown after asking once more.
pub open spec fn shown_after(shown: nat, count: nat) -> nat {
    if shown < count {
        shown + 1
    } else {
        shown
    }
}

/// The hints shown by asking `asks` times, starting with `shown` already shown.
pub open spec fn hints_revealed(shown: nat, count: nat, asks: nat) -> Seq<nat>
    decreases asks,
{
    if asks == 0 {
        Seq::empty()
    } else {
        let rest = hints_revealed(shown_after(shown, count), count, (asks - 1) as nat);
        match next_hint(shown, count) {
            Some(h) => seq![h] + rest,
            None => rest,
        }
    }
}

/// Shows the next hint of the puzzle in progress, which has `hint_count` hints: the
/// position of the hint to show, or `None` when all have been shown.
pub fn take_hint(cur: &mut Current, hint_count: usize) -> (r: Option<usize>)
    requires
        old(cur).hints_shown < hint_count ==> old(cur).hints_shown < u32::MAX,
    ensures
        r == (match next_hint(old(cur).hints_shown as nat, hint_count as nat) {
            Some(h) => Some(h as usize),
            None => None::<usize>,
        }),
        final(cur).hints_shown == shown_after(old(cur).hints_shown as nat, hint_count as nat),
        final(cur).puzzle_id == old(cur).puzzle_id,
        final(cur).run_id == old(cur).run_id,
        final(cur).workspace == old(cur).workspace,
{
    let idx = cur.hints_shown as usize;
    if idx >= hint_count {
        None
    } else {
        cur.hints_shown = cur.hints_shown + 1;
        Some(idx)
    }
}

/// Hints are progressive: asking `asks` times from the start shows the first hints in
/// order, one per ask, and once all are shown no more come.
pub proof fn lemma_hints_progressive(count: nat, asks: nat)
    ensures
        hints_revealed(0, count, asks) =~= Seq::new(
            if asks < count {
                asks
            } else {
                count
            },
            |i: int| i as nat,
        ),
{
    lemma_hints_from(0, count, asks);
}

proof fn lemma_hints_from(shown: nat, count: nat, asks: nat)
    requires
        shown <= count,
    ensures
        hints_revealed(shown, count, asks) =~= Seq::new(
            if shown + asks < count {
                asks
            } else {
                (count - shown) as nat
            },
            |i: int| (shown + i) as nat,
        ),
    decreases asks,
{
    if asks > 0 {
        lemma_hints_from(shown_after(shown, count), count, (asks - 1) as nat);
    }
}

} // verus!
