use vstd::prelude::*;

verus! {

/// The character sequences that a sequence of strings holds.
pub open spec fn strs(v: Seq<String>) -> Seq<Seq<char>> {
    v.map_values(|s: String| s@)
}

/// Appends a copy of `s` to `v`.
pub fn push_str(v: &mut Vec<String>, s: &str)
    ensures
        strs(final(v)@) == strs(old(v)@).push(s@),
{
    v.push(String::from_str(s));
    assert(strs(v@) =~= strs(old(v)@).push(s@));
}

/// Appends `s` itself to `v`.
pub fn push_string(v: &mut Vec<String>, s: String)
    ensures
        strs(final(v)@) == strs(old(v)@).push(s@),
{
    let ghost sv = s@;
    v.push(s);
    assert(strs(v@) =~= strs(old(v)@).push(sv));
}

/// Two strings joined into a new one.
pub fn join2(a: &str, b: &str) -> (r: String)
    ensures
        r@ == a@ + b@,
{
    let mut r = String::from_str(a);
    r.append(b);
    r
}

/// Three strings joined into a new one.
pub fn join3(a: &str, b: &str, c: &str) -> (r: String)
    ensures
        r@ == a@ + b@ + c@,
{
    let mut r = String::from_str(a);
    r.append(b);
    r.append(c);
    r
}

/// Character-by-character equality of two string slices.
pub fn str_eq(a: &str, b: &str) -> (r: bool)
    ensures
        r == (a@ == b@),
{
    let n = a.unicode_len();
    let m = b.unicode_len();
    if n != m {
        return false;
    }
    let mut i: usize = 0;
    while i < n
        invariant
            n == a@.len(),
            m == b@.len(),
            n == m,
            i <= n,
            forall|j: int| 0 <= j < i ==> a@[j] == b@[j],
        decreases n - i,
    {
        if a.get_char(i) != b.get_char(i) {
            return false;
        }
        i = i + 1;
    }
    assert(a@ =~= b@);
    true
}

} // verus!
