use vstd::prelude::*;

use crate::order::{
    is_sorted_by, lemma_insert_pos_at, lemma_stable_sort_permutes, lemma_stable_sort_sorted, seq_le, stable_sort,
    str_le,
};
use crate::text::{join2, join3, str_eq};

verus! {

/// What a puzzle's `meta.yaml` declares it needs.
#[derive(Clone, Debug)]
pub struct Requires {
    pub network: bool,
    pub writable_paths: Vec<String>,
}

/// A puzzle's `meta.yaml`.
#[derive(Clone, Debug)]
pub struct Meta {
    pub id: String,
    pub title: String,
    pub module: String,
    pub difficulty: String,
    pub estimated_minutes: u32,
    pub hints: Vec<String>,
    pub tags: Vec<String>,
    pub requires: Requires,
}

/// A puzzle: its metadata and the directory that holds its files.
#[derive(Clone, Debug)]
pub struct Puzzle {
    pub meta: Meta,
    pub dir: String,
}

/// `name` appended to the path `dir` as a further component: an absolute `name`
/// replaces `dir`, and a separator is put between them unless `dir` is empty or already
/// ends in one.
pub open spec fn path_join(dir: Seq<char>, name: Seq<char>) -> Seq<char> {
    if name.len() > 0 && name[0] == '/' {
        name
    } else if dir.len() == 0 || dir.last() == '/' {
        dir + name
    } else {
        dir + seq!['/'] + name
    }
}

/// The path `dir` joined with `name`.
pub fn join_path(dir: &str, name: &str) -> (r: String)
    ensures
        r@ == path_join(dir@, name@),
{
    let n = dir.unicode_len();
    if name.unicode_len() > 0 && name.get_char(0) == '/' {
        String::from_str(name)
    } else if n == 0 || dir.get_char(n - 1) == '/' {
        join2(dir, name)
    } else {
        let r = join3(dir, "/", name);
        proof {
            reveal_strlit("/");
        }
        r
    }
}

impl Puzzle {
    pub fn readme_path(&self) -> (r: String)
        ensures
            r@ == path_join(self.dir@, "README.md"@),
    {
        join_path(self.dir.as_str(), "README.md")
    }

    pub fn solution_path(&self) -> (r: String)
        ensures
            r@ == path_join(self.dir@, "solution.sh"@),
    {
        join_path(self.dir.as_str(), "solution.sh")
    }
}

/// The module that an id names: the part before its first `/` (all of it when it has none).
pub open spec fn module_of_id(id: Seq<char>) -> Seq<char>
    decreases id.len(),
{
    if id.len() == 0 || id[0] == '/' {
        Seq::empty()
    } else {
        seq![id[0]] + module_of_id(id.drop_first())
    }
}

proof fn lemma_module_of_id_at(id: Seq<char>, k: int)
    requires
        0 <= k <= id.len(),
        forall|j: int| 0 <= j < k ==> id[j] != '/',
        k < id.len() ==> id[k] == '/',
    ensures
        module_of_id(id) == id.take(k),
    decreases id.len(),
{
    if k == 0 {
        assert(id.take(0) =~= Seq::<char>::empty());
    } else {
        assert forall|j: int| 0 <= j < k - 1 implies id.drop_first()[j] != '/' by {
            assert(id.drop_first()[j] == id[j + 1]);
        }
        lemma_module_of_id_at(id.drop_first(), k - 1);
        assert(seq![id[0]] + id.drop_first().take(k - 1) =~= id.take(k));
    }
}

/// The module an id names is the longest prefix of the id without a `/`: it holds no `/`,
/// and it is the whole id or is followed by a `/`.
pub proof fn lemma_module_is_prefix_before_slash(id: Seq<char>)
    ensures
        module_of_id(id).len() <= id.len(),
        module_of_id(id) == id.take(module_of_id(id).len() as int),
        forall|j: int| 0 <= j < module_of_id(id).len() ==> #[trigger] module_of_id(id)[j] != '/',
        module_of_id(id).len() == id.len() || id[module_of_id(id).len() as int] == '/',
    decreases id.len(),
{
    if id.len() > 0 && id[0] != '/' {
        let rest = id.drop_first();
        lemma_module_is_prefix_before_slash(rest);
        let m = module_of_id(id);
        assert(m =~= seq![id[0]] + module_of_id(rest));
        assert(m =~= id.take(m.len() as int));
        assert forall|j: int| 0 <= j < m.len() implies #[trigger] m[j] != '/' by {
            if j > 0 {
                assert(m[j] == module_of_id(rest)[j - 1]);
            }
        }
        if m.len() < id.len() {
            assert(id[m.len() as int] == rest[module_of_id(rest).len() as int]);
        }
    } else {
        assert(id.take(0) =~= Seq::<char>::empty());
    }
}

/// Joining keeps both parts whole: a relative name follows the directory and exactly one
/// separator stands between them (none for an empty directory); an absolute name replaces it.
pub proof fn lemma_path_join_parts(dir: Seq<char>, name: Seq<char>)
    ensures
        name.len() > 0 && name[0] == '/' ==> path_join(dir, name) == name,
        !(name.len() > 0 && name[0] == '/') && dir.len() == 0 ==> path_join(dir, name) == name,
        !(name.len() > 0 && name[0] == '/') && dir.len() > 0 ==> {
            let r = path_join(dir, name);
            let sep = if dir.last() == '/' {
                dir.len() - 1
            } else {
                dir.len() as int
            };
            &&& r.take(sep) == dir.take(sep)
            &&& r[sep] == '/'
            &&& r.skip(sep + 1) == name
            &&& (dir.last() == '/' ==> r.take(dir.len() as int) == dir)
        },
{
    if !(name.len() > 0 && name[0] == '/') && dir.len() > 0 {
        let r = path_join(dir, name);
        if dir.last() == '/' {
            assert(r.take(dir.len() - 1) =~= dir.take(dir.len() - 1));
            assert(r.skip(dir.len() as int) =~= name);
            assert(r.take(dir.len() as int) =~= dir);
        } else {
            assert(r.take(dir.len() as int) =~= dir.take(dir.len() as int));
            assert(r.skip(dir.len() + 1int) =~= name);
        }
    }
}

/// The module that `id` names.
pub fn expected_module(id: &str) -> (r: String)
    ensures
        r@ == module_of_id(id@),
{
    let n = id.unicode_len();
    let mut k: usize = 0;
    while k < n && id.get_char(k) != '/'
        invariant
            n == id@.len(),
            k <= n,
            forall|j: int| 0 <= j < k ==> id@[j] != '/',
        decreases n - k,
    {
        k = k + 1;
    }
    proof {
        lemma_module_of_id_at(id@, k as int);
    }
    String::from_str(id.substring_char(0, k))
}

/// The metadata's module is the one its id names.
pub fn module_matches_id(meta: &Meta) -> (r: bool)
    ensures
        r == (meta.module@ == module_of_id(meta.id@)),
{
    let expected = expected_module(meta.id.as_str());
    str_eq(meta.module.as_str(), expected.as_str())
}

/// A puzzle's id, the key by which puzzles are ordered.
pub open spec fn puzzle_id(p: Puzzle) -> Seq<char> {
    p.meta.id@
}

/// The puzzles ordered by id; puzzles with equal ids keep their order.
pub fn sort_by_id(puzzles: Vec<Puzzle>) -> (r: Vec<Puzzle>)
    ensures
        r@ == stable_sort(puzzles@, |p: Puzzle| puzzle_id(p)),
{
    let ghost key = |p: Puzzle| puzzle_id(p);
    let ghost orig = puzzles@;
    let n = puzzles.len();
    let mut rest = puzzles;
    let mut out: Vec<Puzzle> = Vec::new();
    let mut i: usize = 0;
    assert(orig.take(0) =~= Seq::<Puzzle>::empty());
    assert(orig.skip(0) =~= orig);
    while i < n
        invariant
            n == orig.len(),
            i <= n,
            out@ == stable_sort(orig.take(i as int), key),
            rest@ == orig.skip(i as int),
            key == (|p: Puzzle| puzzle_id(p)),
        decreases n - i,
    {
        let x = rest.remove(0);
        assert(x == orig[i as int]);
        assert(rest@ =~= orig.skip(i + 1));
        let m = out.len();
        let mut pos: usize = 0;
        while pos < m && str_le(out[pos].meta.id.as_str(), x.meta.id.as_str())
            invariant
                m == out@.len(),
                pos <= m,
                forall|j: int| 0 <= j < pos ==> seq_le(key(#[trigger] out@[j]), key(x)),
                key == (|p: Puzzle| puzzle_id(p)),
            decreases m - pos,
        {
            pos = pos + 1;
        }
        proof {
            lemma_insert_pos_at(out@, key, key(x), pos as int);
            assert(orig.take(i + 1).drop_last() =~= orig.take(i as int));
            assert(orig.take(i + 1).last() == x);
        }
        out.insert(pos, x);
        i = i + 1;
    }
    assert(orig.take(n as int) =~= orig);
    out
}

/// Discovered puzzles come in order of id, each puzzle exactly once.
pub proof fn lemma_sorted_by_id(ps: Seq<Puzzle>)
    ensures
        is_sorted_by(stable_sort(ps, |p: Puzzle| puzzle_id(p)), |p: Puzzle| puzzle_id(p)),
        stable_sort(ps, |p: Puzzle| puzzle_id(p)).to_multiset() =~= ps.to_multiset(),
{
    lemma_stable_sort_sorted(ps, |p: Puzzle| puzzle_id(p));
    lemma_stable_sort_permutes(ps, |p: Puzzle| puzzle_id(p));
}

/// The first puzzle whose id is `id`.
pub fn find_puzzle(puzzles: &Vec<Puzzle>, id: &str) -> (r: Option<usize>)
    ensures
        match r {
            Some(i) => i < puzzles@.len() && puzzles@[i as int].meta.id@ == id@ && forall|j: int|
                0 <= j < i ==> (#[trigger] puzzles@[j]).meta.id@ != id@,
            None => forall|j: int| 0 <= j < puzzles@.len() ==> (#[trigger] puzzles@[j]).meta.id@ != id@,
        },
{
    let n = puzzles.len();
    let mut i: usize = 0;
    while i < n
        invariant
            n == puzzles@.len(),
            i <= n,
            forall|j: int| 0 <= j < i ==> (#[trigger] puzzles@[j]).meta.id@ != id@,
        decreases n - i,
    {
        if str_eq(puzzles[i].meta.id.as_str(), id) {
            return Some(i);
        }
        i = i + 1;
    }
    None
}

} // verus!
