use vstd::prelude::*;

use crate::clock::{utc_now, Timestamp};
use crate::text::str_eq;

verus! {

/// Where a learner stands on one puzzle.
#[derive(Clone, Copy, Debug, PartialEq, Eq, Structural)]
pub enum Status {
    Solved,
    Attempted,
}

/// The record kept for one puzzle.
#[derive(Clone, Copy, Debug, PartialEq, Eq, Structural)]
pub struct PuzzleProgress {
    pub status: Status,
    pub attempts: u32,
    pub hints_shown: u32,
    pub first_solved_at: Option<Timestamp>,
    pub last_attempted_at: Option<Timestamp>,
}

/// All progress: a record per puzzle id.
///
/// Looking an id up finds the first entry that carries it; the operations here never
/// put a second entry under an id that already has one.
#[derive(Clone, Debug)]
pub struct Progress {
    pub version: u32,
    pub puzzles: Vec<(String, PuzzleProgress)>,
}

/// The in-progress puzzle, kept between commands.
#[derive(Clone, Debug)]
pub struct Current {
    pub puzzle_id: String,
    pub run_id: String,
    pub workspace: String,
    pub hints_shown: u32,
}

/// Progress as a version and a map from puzzle id to its record.
pub struct ProgressView {
    pub version: u32,
    pub puzzles: Map<Seq<char>, PuzzleProgress>,
}

/// `i` is the first position in `entries` whose id is `id`.
pub open spec fn first_index(entries: Seq<(String, PuzzleProgress)>, id: Seq<char>, i: int) -> bool {
    &&& 0 <= i < entries.len()
    &&& entries[i].0@ == id
    &&& forall|j: int| 0 <= j < i ==> (#[trigger] entries[j]).0@ != id
}

/// No two entries carry the same id.
pub open spec fn ids_distinct(entries: Seq<(String, PuzzleProgress)>) -> bool {
    forall|i: int, j: int|
        0 <= i < j < entries.len() ==> (#[trigger] entries[i]).0@ != (#[trigger] entries[j]).0@
}

/// Some entry carries `id`.
pub open spec fn has_id(entries: Seq<(String, PuzzleProgress)>, id: Seq<char>) -> bool {
    exists|i: int| first_index(entries, id, i)
}

/// The record of the first entry that carries `id`.
pub open spec fn record_of(entries: Seq<(String, PuzzleProgress)>, id: Seq<char>) -> PuzzleProgress {
    entries[choose|i: int| first_index(entries, id, i)].1
}

/// The map that a list of entries stands for: each id to its first record.
pub open spec fn entries_map(entries: Seq<(String, PuzzleProgress)>) -> Map<Seq<char>, PuzzleProgress> {
    Map::new(|id: Seq<char>| has_id(entries, id), |id: Seq<char>| record_of(entries, id))
}

impl View for Progress {
    type V = ProgressView;

    open spec fn view(&self) -> ProgressView {
        ProgressView { version: self.version, puzzles: entries_map(self.puzzles@) }
    }
}

/// The record of a puzzle after one more attempt at `now`.
pub open spec fn after_attempt(prev: Option<PuzzleProgress>, now: Timestamp) -> PuzzleProgress {
    match prev {
        Some(p) => PuzzleProgress { attempts: (p.attempts + 1) as u32, last_attempted_at: Some(now), ..p },
        None => PuzzleProgress {
            status: Status::Attempted,
            attempts: 1,
            hints_shown: 0,
            first_solved_at: None,
            last_attempted_at: Some(now),
        },
    }
}

/// The record of a puzzle once it is solved at `now`: the first solve time is kept.
pub open spec fn after_solve(prev: Option<PuzzleProgress>, now: Timestamp) -> PuzzleProgress {
    match prev {
        Some(p) => PuzzleProgress {
            status: Status::Solved,
            first_solved_at: if p.first_solved_at is Some { p.first_solved_at } else { Some(now) },
            last_attempted_at: Some(now),
            ..p
        },
        None => PuzzleProgress {
            status: Status::Solved,
            attempts: 0,
            hints_shown: 0,
            first_solved_at: Some(now),
            last_attempted_at: Some(now),
        },
    }
}

impl ProgressView {
    pub open spec fn is_solved(self, id: Seq<char>) -> bool {
        self.puzzles.contains_key(id) && self.puzzles[id].status == Status::Solved
    }

    /// An attempt can be recorded without the attempt counter overflowing.
    pub open spec fn can_attempt(self, id: Seq<char>) -> bool {
        self.puzzles.contains_key(id) ==> self.puzzles[id].attempts < u32::MAX
    }

    pub open spec fn attempted(self, id: Seq<char>, now: Timestamp) -> ProgressView {
        ProgressView { version: self.version, puzzles: self.puzzles.insert(id, after_attempt(self.puzzles.get(id), now)) }
    }

    pub open spec fn solved(self, id: Seq<char>, now: Timestamp) -> ProgressView {
        ProgressView { version: self.version, puzzles: self.puzzles.insert(id, after_solve(self.puzzles.get(id), now)) }
    }
}

proof fn lemma_first_index_unique(entries: Seq<(String, PuzzleProgress)>, id: Seq<char>, i: int, j: int)
    requires
        first_index(entries, id, i),
        first_index(entries, id, j),
    ensures
        i == j,
{
    if i < j {
        assert(entries[i].0@ != id);
    } else if j < i {
        assert(entries[j].0@ != id);
    }
}

/// Overwriting the record at a first position of `id` changes only the map's value at `id`.
proof fn lemma_map_after_update(
    entries: Seq<(String, PuzzleProgress)>,
    i: int,
    key: String,
    p: PuzzleProgress,
)
    requires
        first_index(entries, key@, i),
    ensures
        entries_map(entries.update(i, (key, p))) =~= entries_map(entries).insert(key@, p),
{
    let new = entries.update(i, (key, p));
    assert(first_index(new, key@, i));
    assert forall|j: int| #![trigger new[j]] #![trigger entries[j]] 0 <= j < new.len() implies new[j].0@ == entries[j].0@ by {
        if j == i {
            assert(entries[i].0@ == key@);
        }
    }
    assert forall|id: Seq<char>| #[trigger] has_id(new, id) == has_id(entries, id) by {
        if has_id(new, id) {
            let k = choose|k: int| first_index(new, id, k);
            assert(first_index(entries, id, k));
        }
        if has_id(entries, id) {
            let k = choose|k: int| first_index(entries, id, k);
            assert(first_index(new, id, k));
        }
    }
    assert forall|id: Seq<char>| id != key@ && has_id(entries, id) implies #[trigger] record_of(new, id) == record_of(
        entries,
        id,
    ) by {
        let b = choose|k: int| first_index(entries, id, k);
        assert(first_index(new, id, b));
        let a = choose|k: int| first_index(new, id, k);
        lemma_first_index_unique(new, id, a, b);
    }
    let c = choose|k: int| first_index(new, key@, k);
    lemma_first_index_unique(new, key@, c, i);
}

/// Adding a record for an id that has none extends the map by that id alone.
proof fn lemma_map_after_push(entries: Seq<(String, PuzzleProgress)>, key: String, p: PuzzleProgress)
    requires
        forall|j: int| 0 <= j < entries.len() ==> (#[trigger] entries[j]).0@ != key@,
    ensures
        entries_map(entries.push((key, p))) =~= entries_map(entries).insert(key@, p),
{
    let new = entries.push((key, p));
    let n = entries.len() as int;
    assert(first_index(new, key@, n));
    assert forall|j: int| #![trigger new[j]] #![trigger entries[j]] 0 <= j < n implies new[j] == entries[j] by {}
    assert forall|id: Seq<char>| id != key@ implies #[trigger] has_id(new, id) == has_id(entries, id) by {
        if has_id(new, id) {
            let k = choose|k: int| first_index(new, id, k);
            assert(k != n);
            assert(first_index(entries, id, k));
        }
        if has_id(entries, id) {
            let k = choose|k: int| first_index(entries, id, k);
            assert(first_index(new, id, k));
        }
    }
    assert forall|id: Seq<char>| id != key@ && has_id(entries, id) implies #[trigger] record_of(new, id) == record_of(
        entries,
        id,
    ) by {
        let b = choose|k: int| first_index(entries, id, k);
        assert(first_index(new, id, b));
        let a = choose|k: int| first_index(new, id, k);
        lemma_first_index_unique(new, id, a, b);
    }
    let c = choose|k: int| first_index(new, key@, k);
    lemma_first_index_unique(new, key@, c, n);
}

impl Default for Progress {
    fn default() -> (r: Self)
        ensures
            r@.version == 1,
            r@.puzzles == Map::<Seq<char>, PuzzleProgress>::empty(),
            r.puzzles@.len() == 0,
            ids_distinct(r.puzzles@),
    {
        let r = Progress { version: 1, puzzles: Vec::new() };
        assert(r@.puzzles =~= Map::<Seq<char>, PuzzleProgress>::empty());
        r
    }
}

impl Progress {
    /// Progress made of the given records, provided no id occurs twice among them.
    pub fn from_entries(version: u32, puzzles: Vec<(String, PuzzleProgress)>) -> (r: Option<Progress>)
        ensures
            r is Some <==> ids_distinct(puzzles@),
            r matches Some(p) ==> p.version == version && p.puzzles@ == puzzles@,
    {
        let n = puzzles.len();
        let mut j: usize = 0;
        while j < n
            invariant
                n == puzzles@.len(),
                j <= n,
                forall|a: int, b: int| 0 <= a < b < j ==> (#[trigger] puzzles@[a]).0@ != (#[trigger] puzzles@[b]).0@,
            decreases n - j,
        {
            let mut i: usize = 0;
            while i < j
                invariant
                    n == puzzles@.len(),
                    j < n,
                    i <= j,
                    forall|a: int| 0 <= a < i ==> (#[trigger] puzzles@[a]).0@ != puzzles@[j as int].0@,
                decreases j - i,
            {
                if str_eq(puzzles[i].0.as_str(), puzzles[j].0.as_str()) {
                    return None;
                }
                i = i + 1;
            }
            j = j + 1;
        }
        Some(Progress { version, puzzles })
    }

    /// The first position whose id is `id`, if any.
    fn position(&self, id: &str) -> (r: Option<usize>)
        ensures
            match r {
                Some(i) => first_index(self.puzzles@, id@, i as int),
                None => forall|j: int| 0 <= j < self.puzzles@.len() ==> (#[trigger] self.puzzles@[j]).0@ != id@,
            },
    {
        let n = self.puzzles.len();
        let mut i: usize = 0;
        while i < n
            invariant
                n == self.puzzles@.len(),
                i <= n,
                forall|j: int| 0 <= j < i ==> (#[trigger] self.puzzles@[j]).0@ != id@,
            decreases n - i,
        {
            if str_eq(self.puzzles[i].0.as_str(), id) {
                return Some(i);
            }
            i = i + 1;
        }
        None
    }

    /// The record kept for `id`, if any.
    pub fn get(&self, id: &str) -> (r: Option<PuzzleProgress>)
        ensures
            r == self@.puzzles.get(id@),
    {
        match self.position(id) {
            Some(i) => {
                proof {
                    let c = choose|k: int| first_index(self.puzzles@, id@, k);
                    lemma_first_index_unique(self.puzzles@, id@, c, i as int);
                }
                Some(self.puzzles[i].1)
            },
            None => {
                assert(!self@.puzzles.contains_key(id@));
                None
            },
        }
    }

    pub fn is_solved(&self, id: &str) -> (r: bool)
        ensures
            r == self@.is_solved(id@),
    {
        match self.get(id) {
            Some(p) => p.status == Status::Solved,
            None => false,
        }
    }

    fn put(&mut self, id: &str, p: PuzzleProgress)
        ensures
            final(self)@ == (ProgressView { version: old(self)@.version, puzzles: old(self)@.puzzles.insert(id@, p) }),
            ids_distinct(old(self).puzzles@) ==> ids_distinct(final(self).puzzles@),
    {
        match self.position(id) {
            Some(i) => {
                let key = self.puzzles[i].0.clone();
                proof {
                    lemma_map_after_update(self.puzzles@, i as int, key, p);
                }
                self.puzzles.set(i, (key, p));
            },
            None => {
                let key = String::from_str(id);
                proof {
                    lemma_map_after_push(self.puzzles@, key, p);
                }
                self.puzzles.push((key, p));
            },
        }
    }

    /// Records an attempt at `id` made at `now`.
    pub fn record_attempt_at(&mut self, id: &str, now: Timestamp)
        requires
            old(self)@.can_attempt(id@),
        ensures
            final(self)@ == old(self)@.attempted(id@, now),
            ids_distinct(old(self).puzzles@) ==> ids_distinct(final(self).puzzles@),
    {
        let prev = self.get(id);
        let next = match prev {
            Some(p) => PuzzleProgress { attempts: p.attempts + 1, last_attempted_at: Some(now), ..p },
            None => PuzzleProgress {
                status: Status::Attempted,
                attempts: 1,
                hints_shown: 0,
                first_solved_at: None,
                last_attempted_at: Some(now),
            },
        };
        self.put(id, next);
    }

    /// Records a solve of `id` at `now`.
    pub fn record_solved_at(&mut self, id: &str, now: Timestamp)
        ensures
            final(self)@ == old(self)@.solved(id@, now),
            ids_distinct(old(self).puzzles@) ==> ids_distinct(final(self).puzzles@),
    {
        let prev = self.get(id);
        let next = match prev {
            Some(p) => PuzzleProgress {
                status: Status::Solved,
                first_solved_at: if p.first_solved_at.is_some() { p.first_solved_at } else { Some(now) },
                last_attempted_at: Some(now),
                ..p
            },
            None => PuzzleProgress {
                status: Status::Solved,
                attempts: 0,
                hints_shown: 0,
                first_solved_at: Some(now),
                last_attempted_at: Some(now),
            },
        };
        self.put(id, next);
    }

    /// Records an attempt at `id` made now.
    pub fn record_attempt(&mut self, id: &str)
        requires
            old(self)@.can_attempt(id@),
        ensures
            exists|now: Timestamp|
                now.secs >= 0 && now.nanos < 1_000_000_000 && final(self)@ == old(self)@.attempted(id@, now),
            ids_distinct(old(self).puzzles@) ==> ids_distinct(final(self).puzzles@),
    {
        let now = utc_now();
        self.record_attempt_at(id, now);
    }

    /// Records a solve of `id` made now.
    pub fn record_solved(&mut self, id: &str)
        ensures
            exists|now: Timestamp|
                now.secs >= 0 && now.nanos < 1_000_000_000 && final(self)@ == old(self)@.solved(id@, now),
            ids_distinct(old(self).puzzles@) ==> ids_distinct(final(self).puzzles@),
    {
        let now = utc_now();
        self.record_solved_at(id, now);
    }
}

/// Once recorded as solved, a puzzle is solved.
pub proof fn lemma_solve_marks_solved(v: ProgressView, id: Seq<char>, now: Timestamp)
    ensures
        v.solved(id, now).is_solved(id),
{
}

/// An attempt never clears a solved flag and never sets one: re-running a solved puzzle
/// leaves it solved.
pub proof fn lemma_attempt_keeps_solved_flags(v: ProgressView, id: Seq<char>, now: Timestamp, other: Seq<char>)
    ensures
        v.attempted(id, now).is_solved(other) == v.is_solved(other),
{
}

/// Solving again keeps the time of the first solve; the first solve sets it.
pub proof fn lemma_first_solve_time_kept(v: ProgressView, id: Seq<char>, now: Timestamp)
    ensures
        v.solved(id, now).puzzles[id].first_solved_at is Some,
        v.puzzles.contains_key(id) && v.puzzles[id].first_solved_at is Some ==> v.solved(id, now).puzzles[
            id
        ].first_solved_at == v.puzzles[id].first_solved_at,
        v.solved(id, now).puzzles[id].last_attempted_at == Some(now),
{
}

/// Every attempt adds exactly one to the attempt count; a solve does not count as one.
pub proof fn lemma_attempt_count(v: ProgressView, id: Seq<char>, now: Timestamp)
    requires
        v.can_attempt(id),
    ensures
        v.attempted(id, now).puzzles[id].attempts == (if v.puzzles.contains_key(id) {
            v.puzzles[id].attempts + 1
        } else {
            1
        }),
        v.solved(id, now).puzzles[id].attempts == (if v.puzzles.contains_key(id) {
            v.puzzles[id].attempts as int
        } else {
            0
        }),
        v.attempted(id, now).puzzles[id].last_attempted_at == Some(now),
{
}

/// Recording an attempt or a solve of one puzzle leaves every other puzzle's record as it was.
pub proof fn lemma_other_puzzles_untouched(v: ProgressView, id: Seq<char>, now: Timestamp, other: Seq<char>)
    requires
        other != id,
    ensures
        v.attempted(id, now).puzzles.get(other) == v.puzzles.get(other),
        v.solved(id, now).puzzles.get(other) == v.puzzles.get(other),
        v.attempted(id, now).version == v.version,
        v.solved(id, now).version == v.version,
{
}

/// An attempt changes only the attempt count and the last attempt time of a puzzle
/// already on record: its status, hints and first solve time stay; a puzzle not on
/// record starts as attempted once, never solved.
pub proof fn lemma_attempt_changes_only_count_and_time(v: ProgressView, id: Seq<char>, now: Timestamp)
    requires
        v.can_attempt(id),
    ensures
        v.attempted(id, now).puzzles.contains_key(id),
        v.puzzles.contains_key(id) ==> {
            let before = v.puzzles[id];
            let after = v.attempted(id, now).puzzles[id];
            &&& after.status == before.status
            &&& after.hints_shown == before.hints_shown
            &&& after.first_solved_at == before.first_solved_at
            &&& after.attempts == before.attempts + 1
            &&& after.last_attempted_at == Some(now)
        },
        !v.puzzles.contains_key(id) ==> {
            let after = v.attempted(id, now).puzzles[id];
            &&& after.status == Status::Attempted
            &&& after.hints_shown == 0
            &&& after.first_solved_at is None
            &&& after.attempts == 1
            &&& after.last_attempted_at == Some(now)
        },
{
}

/// A solve changes only the status, the last attempt time and (the first time) the first
/// solve time: the attempt count and hints stay.
pub proof fn lemma_solve_changes_only_status_and_times(v: ProgressView, id: Seq<char>, now: Timestamp)
    ensures
        v.solved(id, now).puzzles.contains_key(id),
        v.puzzles.contains_key(id) ==> {
            let before = v.puzzles[id];
            let after = v.solved(id, now).puzzles[id];
            &&& after.status == Status::Solved
            &&& after.hints_shown == before.hints_shown
            &&& after.attempts == before.attempts
            &&& after.last_attempted_at == Some(now)
            &&& after.first_solved_at == if before.first_solved_at is Some {
                before.first_solved_at
            } else {
                Some(now)
            }
        },
        !v.puzzles.contains_key(id) ==> {
            let after = v.solved(id, now).puzzles[id];
            &&& after.status == Status::Solved
            &&& after.hints_shown == 0
            &&& after.attempts == 0
            &&& after.first_solved_at == Some(now)
            &&& after.last_attempted_at == Some(now)
        },
{
}

} // verus!
