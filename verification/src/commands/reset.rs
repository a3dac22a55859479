use vstd::prelude::*;

use crate::progress::Current;
use crate::text::str_eq;

verus! {

/// Resetting `puzzle_id` wipes the in-progress workspace when that puzzle is the one in progress.
pub fn wipes_current(current: &Option<Current>, puzzle_id: &str) -> (r: bool)
    ensures
        r == (current is Some && current->0.puzzle_id@ == puzzle_id@),
{
    match current {
        Some(cur) => str_eq(cur.puzzle_id.as_str(), puzzle_id),
        None => false,
    }
}

} // verus!
