use vstd::prelude::*;

verus! {

/// Lexicographic order on character sequences, by code point: the order in which
/// `str` compares its values.
pub open spec fn seq_le(a: Seq<char>, b: Seq<char>) -> bool
    decreases a.len(),
{
    if a.len() == 0 {
        true
    } else if b.len() == 0 {
        false
    } else if a[0] != b[0] {
        (a[0] as int) < (b[0] as int)
    } else {
        seq_le(a.drop_first(), b.drop_first())
    }
}

/// Whether `a` sorts before or equal to `b`.
pub fn str_le(a: &str, b: &str) -> (r: bool)
    ensures
        r == seq_le(a@, b@),
{
    let n = a.unicode_len();
    let m = b.unicode_len();
    let mut i: usize = 0;
    assert(a@.skip(0) =~= a@);
    assert(b@.skip(0) =~= b@);
    while i < n && i < m
        invariant
            n == a@.len(),
            m == b@.len(),
            i <= n,
            i <= m,
            seq_le(a@, b@) == seq_le(a@.skip(i as int), b@.skip(i as int)),
        decreases n - i,
    {
        let ca = a.get_char(i);
        let cb = b.get_char(i);
        if ca != cb {
            return ca < cb;
        }
        assert(a@.skip(i as int).drop_first() =~= a@.skip(i + 1));
        assert(b@.skip(i as int).drop_first() =~= b@.skip(i + 1));
        i = i + 1;
    }
    i == n
}

/// What the order is, case by case: the empty string comes first; two strings that differ
/// in their first character are ordered by the code points of those characters; two that
/// share it are ordered by the rest. These cases decide every pair.
pub proof fn lemma_seq_le_by_first_character(a: Seq<char>, b: Seq<char>)
    ensures
        a.len() == 0 ==> seq_le(a, b),
        a.len() > 0 && b.len() == 0 ==> !seq_le(a, b),
        a.len() > 0 && b.len() > 0 && a[0] != b[0] ==> (seq_le(a, b) <==> (a[0] as int) < (b[0] as int)),
        a.len() > 0 && b.len() > 0 && a[0] == b[0] ==> (seq_le(a, b) <==> seq_le(a.drop_first(), b.drop_first())),
{
}

/// Two strings are ordered by the code points at the first place they differ; a string
/// comes before every string it is a prefix of.
pub proof fn lemma_seq_le_first_difference(a: Seq<char>, b: Seq<char>, k: int)
    requires
        0 <= k <= a.len(),
        k <= b.len(),
        a.take(k) == b.take(k),
    ensures
        k == a.len() ==> seq_le(a, b),
        k < a.len() && k < b.len() && a[k] != b[k] ==> (seq_le(a, b) <==> (a[k] as int) < (b[k] as int)),
    decreases k,
{
    if k > 0 {
        assert(a[0] == a.take(k)[0]);
        assert(b[0] == b.take(k)[0]);
        assert(a.drop_first().take(k - 1) =~= a.take(k).drop_first());
        assert(b.drop_first().take(k - 1) =~= b.take(k).drop_first());
        lemma_seq_le_first_difference(a.drop_first(), b.drop_first(), k - 1);
    }
}

pub proof fn lemma_seq_le_reflexive(a: Seq<char>)
    ensures
        seq_le(a, a),
    decreases a.len(),
{
    if a.len() > 0 {
        lemma_seq_le_reflexive(a.drop_first());
    }
}

pub proof fn lemma_seq_le_total(a: Seq<char>, b: Seq<char>)
    ensures
        seq_le(a, b) || seq_le(b, a),
    decreases a.len(),
{
    if a.len() > 0 && b.len() > 0 && a[0] == b[0] {
        lemma_seq_le_total(a.drop_first(), b.drop_first());
    }
}

pub proof fn lemma_seq_le_transitive(a: Seq<char>, b: Seq<char>, c: Seq<char>)
    requires
        seq_le(a, b),
        seq_le(b, c),
    ensures
        seq_le(a, c),
    decreases a.len(),
{
    if a.len() > 0 && b.len() > 0 && c.len() > 0 && a[0] == b[0] && b[0] == c[0] {
        lemma_seq_le_transitive(a.drop_first(), b.drop_first(), c.drop_first());
    }
}

/// How many leading elements of `s` have a key at most `k`: where an element with key
/// `k` goes so that it follows every element with an equal or smaller key.
pub open spec fn insert_pos<T>(s: Seq<T>, key: spec_fn(T) -> Seq<char>, k: Seq<char>) -> nat
    decreases s.len(),
{
    if s.len() == 0 {
        0
    } else if seq_le(key(s[0]), k) {
        1 + insert_pos(s.drop_first(), key, k)
    } else {
        0
    }
}

/// `x` put into `s` after every element whose key is at most `x`'s key.
pub open spec fn sorted_insert<T>(s: Seq<T>, key: spec_fn(T) -> Seq<char>, x: T) -> Seq<T> {
    s.insert(insert_pos(s, key, key(x)) as int, x)
}

/// The stable sort of `s` by `key`: each element in turn is inserted after every earlier
/// element whose key is at most its own.
pub open spec fn stable_sort<T>(s: Seq<T>, key: spec_fn(T) -> Seq<char>) -> Seq<T>
    decreases s.len(),
{
    if s.len() == 0 {
        s
    } else {
        sorted_insert(stable_sort(s.drop_last(), key), key, s.last())
    }
}

pub open spec fn is_sorted_by<T>(s: Seq<T>, key: spec_fn(T) -> Seq<char>) -> bool {
    forall|i: int, j: int| 0 <= i < j < s.len() ==> seq_le(key(#[trigger] s[i]), key(#[trigger] s[j]))
}

/// The position `p` at which a scan stops (every earlier key at most `k`, the key at `p`
/// greater) is `insert_pos`.
pub proof fn lemma_insert_pos_at<T>(s: Seq<T>, key: spec_fn(T) -> Seq<char>, k: Seq<char>, p: int)
    requires
        0 <= p <= s.len(),
        forall|j: int| 0 <= j < p ==> seq_le(key(#[trigger] s[j]), k),
        p < s.len() ==> !seq_le(key(s[p]), k),
    ensures
        insert_pos(s, key, k) == p,
    decreases s.len(),
{
    if s.len() > 0 && p > 0 {
        assert(seq_le(key(s[0]), k));
        assert forall|j: int| 0 <= j < p - 1 implies seq_le(key(#[trigger] s.drop_first()[j]), k) by {
            assert(s.drop_first()[j] == s[j + 1]);
        }
        lemma_insert_pos_at(s.drop_first(), key, k, p - 1);
    }
}

/// What `insert_pos` is: every key before it is at most `k`, the key at it is not.
pub proof fn lemma_insert_pos_bounds<T>(s: Seq<T>, key: spec_fn(T) -> Seq<char>, k: Seq<char>)
    ensures
        insert_pos(s, key, k) <= s.len(),
        forall|j: int| 0 <= j < insert_pos(s, key, k) ==> seq_le(key(#[trigger] s[j]), k),
        insert_pos(s, key, k) < s.len() ==> !seq_le(key(s[insert_pos(s, key, k) as int]), k),
    decreases s.len(),
{
    if s.len() > 0 && seq_le(key(s[0]), k) {
        lemma_insert_pos_bounds(s.drop_first(), key, k);
        let p = insert_pos(s, key, k);
        assert forall|j: int| 0 <= j < p implies seq_le(key(#[trigger] s[j]), k) by {
            if j > 0 {
                assert(s[j] == s.drop_first()[j - 1]);
            }
        }
        if p < s.len() {
            assert(s[p as int] == s.drop_first()[p - 1]);
        }
    }
}

proof fn lemma_sorted_insert_sorted<T>(s: Seq<T>, key: spec_fn(T) -> Seq<char>, x: T)
    requires
        is_sorted_by(s, key),
    ensures
        is_sorted_by(sorted_insert(s, key, x), key),
{
    let k = key(x);
    let p = insert_pos(s, key, k) as int;
    lemma_insert_pos_bounds(s, key, k);
    let r = sorted_insert(s, key, x);
    assert forall|j: int| p <= j < s.len() implies seq_le(k, key(#[trigger] s[j])) by {
        lemma_seq_le_total(key(s[p]), k);
        if j > p {
            lemma_seq_le_transitive(k, key(s[p]), key(s[j]));
        }
    }
    assert forall|i: int, j: int| 0 <= i < j < r.len() implies seq_le(key(#[trigger] r[i]), key(#[trigger] r[j])) by {
        if i < p && j == p {
        } else if i < p && j > p {
            assert(r[j] == s[j - 1]);
        } else if i == p {
            assert(r[j] == s[j - 1]);
        } else if i > p {
            assert(r[i] == s[i - 1]);
            assert(r[j] == s[j - 1]);
        }
    }
}

/// A stable sort is sorted by its key.
pub proof fn lemma_stable_sort_sorted<T>(s: Seq<T>, key: spec_fn(T) -> Seq<char>)
    ensures
        is_sorted_by(stable_sort(s, key), key),
    decreases s.len(),
{
    if s.len() > 0 {
        lemma_stable_sort_sorted(s.drop_last(), key);
        lemma_sorted_insert_sorted(stable_sort(s.drop_last(), key), key, s.last());
    }
}

/// A stable sort keeps every element, as often as it occurs.
pub proof fn lemma_stable_sort_permutes<T>(s: Seq<T>, key: spec_fn(T) -> Seq<char>)
    ensures
        stable_sort(s, key).to_multiset() =~= s.to_multiset(),
        stable_sort(s, key).len() == s.len(),
    decreases s.len(),
{
    broadcast use vstd::seq_lib::group_to_multiset_ensures;
    if s.len() > 0 {
        let t = stable_sort(s.drop_last(), key);
        lemma_stable_sort_permutes(s.drop_last(), key);
        let p = insert_pos(t, key, key(s.last())) as int;
        lemma_insert_pos_bounds(t, key, key(s.last()));
        let r = t.insert(p, s.last());
        assert(r.remove(p) =~= t);
        assert(r.to_multiset().remove(s.last()) =~= t.to_multiset());
        assert(s.drop_last().push(s.last()) =~= s);
        assert(r.to_multiset().count(s.last()) > 0) by {
            assert(r[p] == s.last());
        }
    }
}

} // verus!
