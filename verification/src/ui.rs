use vstd::prelude::*;

use crate::text::str_eq;

verus! {

/// The characters with the Unicode `White_Space` property, which `char::is_whitespace`
/// and `str::trim` go by.
pub open spec fn is_white_space(c: char) -> bool {
    let u = c as u32;
    ||| 0x09 <= u <= 0x0d
    ||| u == 0x20
    ||| u == 0x85
    ||| u == 0xa0
    ||| u == 0x1680
    ||| 0x2000 <= u <= 0x200a
    ||| u == 0x2028
    ||| u == 0x2029
    ||| u == 0x202f
    ||| u == 0x205f
    ||| u == 0x3000
}

pub fn white_space(c: char) -> (r: bool)
    ensures
        r == is_white_space(c),
{
    let u = c as u32;
    (0x09 <= u && u <= 0x0d) || u == 0x20 || u == 0x85 || u == 0xa0 || u == 0x1680 || (0x2000 <= u
        && u <= 0x200a) || u == 0x2028 || u == 0x2029 || u == 0x202f || u == 0x205f || u == 0x3000
}

/// `s` without its leading white space.
pub open spec fn trim_start(s: Seq<char>) -> Seq<char>
    decreases s.len(),
{
    if s.len() > 0 && is_white_space(s[0]) {
        trim_start(s.drop_first())
    } else {
        s
    }
}

/// `s` without its trailing white space.
pub open spec fn trim_end(s: Seq<char>) -> Seq<char>
    decreases s.len(),
{
    if s.len() > 0 && is_white_space(s.last()) {
        trim_end(s.drop_last())
    } else {
        s
    }
}

/// `s` without leading and trailing white space, as `str::trim` gives it.
pub open spec fn trimmed(s: Seq<char>) -> Seq<char> {
    trim_end(trim_start(s))
}

proof fn lemma_trim_start_at(s: Seq<char>, k: int)
    requires
        0 <= k <= s.len(),
        forall|j: int| 0 <= j < k ==> is_white_space(#[trigger] s[j]),
        k < s.len() ==> !is_white_space(s[k]),
    ensures
        trim_start(s) == s.skip(k),
    decreases k,
{
    if k == 0 {
        assert(s.skip(0) =~= s);
    } else {
        assert forall|j: int| 0 <= j < k - 1 implies is_white_space(#[trigger] s.drop_first()[j]) by {
            assert(s.drop_first()[j] == s[j + 1]);
        }
        lemma_trim_start_at(s.drop_first(), k - 1);
        assert(s.drop_first().skip(k - 1) =~= s.skip(k));
    }
}

proof fn lemma_trim_end_at(s: Seq<char>, k: int)
    requires
        0 <= k <= s.len(),
        forall|j: int| k <= j < s.len() ==> is_white_space(#[trigger] s[j]),
        k > 0 ==> !is_white_space(s[k - 1]),
    ensures
        trim_end(s) == s.take(k),
    decreases s.len() - k,
{
    if k == s.len() {
        assert(s.take(k) =~= s);
    } else {
        assert forall|j: int| k <= j < s.len() - 1 implies is_white_space(#[trigger] s.drop_last()[j]) by {
            assert(s.drop_last()[j] == s[j]);
        }
        lemma_trim_end_at(s.drop_last(), k);
        assert(s.drop_last().take(k) =~= s.take(k));
    }
}

proof fn lemma_trim_start_shape(s: Seq<char>) -> (a: int)
    ensures
        0 <= a <= s.len(),
        trim_start(s) == s.skip(a),
        forall|j: int| 0 <= j < a ==> is_white_space(#[trigger] s[j]),
        a < s.len() ==> !is_white_space(s[a]),
    decreases s.len(),
{
    if s.len() > 0 && is_white_space(s[0]) {
        let b = lemma_trim_start_shape(s.drop_first());
        assert(s.drop_first().skip(b) =~= s.skip(b + 1));
        assert forall|j: int| 0 <= j < b + 1 implies is_white_space(#[trigger] s[j]) by {
            if j > 0 {
                assert(s[j] == s.drop_first()[j - 1]);
            }
        }
        b + 1
    } else {
        assert(s.skip(0) =~= s);
        0
    }
}

proof fn lemma_trim_end_shape(s: Seq<char>) -> (b: int)
    ensures
        0 <= b <= s.len(),
        trim_end(s) == s.take(b),
        forall|j: int| b <= j < s.len() ==> is_white_space(#[trigger] s[j]),
        b > 0 ==> !is_white_space(s[b - 1]),
    decreases s.len(),
{
    if s.len() > 0 && is_white_space(s.last()) {
        let b = lemma_trim_end_shape(s.drop_last());
        assert(s.drop_last().take(b) =~= s.take(b));
        assert forall|j: int| b <= j < s.len() implies is_white_space(#[trigger] s[j]) by {
            if j < s.len() - 1 {
                assert(s[j] == s.drop_last()[j]);
            }
        }
        if b > 0 {
            assert(s[b - 1] == s.drop_last()[b - 1]);
        }
        b
    } else {
        assert(s.take(s.len() as int) =~= s);
        s.len() as int
    }
}

/// Trimming removes white space at both ends and nothing else: what is left is a stretch
/// of the string that neither starts nor ends with white space, and everything around it
/// is white space.
pub proof fn lemma_trim_removes_only_outer_white_space(s: Seq<char>)
    ensures
        exists|a: int|
            #![trigger s.subrange(a, a + trimmed(s).len())]
            0 <= a && a + trimmed(s).len() <= s.len() && s.subrange(a, a + trimmed(s).len()) == trimmed(s) && (
            forall|j: int| 0 <= j < a ==> is_white_space(#[trigger] s[j])) && (forall|j: int|
                a + trimmed(s).len() <= j < s.len() ==> is_white_space(#[trigger] s[j])),
        trimmed(s).len() > 0 ==> !is_white_space(trimmed(s)[0]) && !is_white_space(trimmed(s).last()),
{
    let a = lemma_trim_start_shape(s);
    let t = s.skip(a);
    let b = lemma_trim_end_shape(t);
    let r = trimmed(s);
    assert(r == t.take(b));
    assert(r =~= s.subrange(a, a + b));
    assert forall|j: int| a + b <= j < s.len() implies is_white_space(#[trigger] s[j]) by {
        assert(s[j] == t[j - a]);
    }
    if r.len() > 0 {
        assert(r[0] == t[0]);
        assert(r.last() == t[b - 1]);
    }
    assert(s.subrange(a, a + r.len()) == r);
}

/// `s` without leading and trailing white space.
pub fn trim(s: &str) -> (r: &str)
    ensures
        r@ == trimmed(s@),
{
    let n = s.unicode_len();
    let mut a: usize = 0;
    while a < n && white_space(s.get_char(a))
        invariant
            n == s@.len(),
            a <= n,
            forall|j: int| 0 <= j < a ==> is_white_space(#[trigger] s@[j]),
        decreases n - a,
    {
        a = a + 1;
    }
    proof {
        lemma_trim_start_at(s@, a as int);
    }
    let ghost t = s@.skip(a as int);
    let mut b: usize = n;
    while b > a && white_space(s.get_char(b - 1))
        invariant
            n == s@.len(),
            a <= b <= n,
            t == s@.skip(a as int),
            forall|j: int| b <= j < n ==> is_white_space(#[trigger] s@[j]),
        decreases b,
    {
        b = b - 1;
    }
    proof {
        assert forall|j: int| b - a <= j < t.len() implies is_white_space(#[trigger] t[j]) by {
            assert(t[j] == s@[j + a]);
        }
        if b > a {
            assert(t[b - a - 1] == s@[b - 1]);
        }
        lemma_trim_end_at(t, b - a);
        assert(t.take(b - a) =~= s@.subrange(a as int, b as int));
    }
    s.substring_char(a, b)
}

/// `s` holds nothing but white space (or nothing at all).
pub fn is_blank(s: &str) -> (r: bool)
    ensures
        r == (forall|i: int| 0 <= i < s@.len() ==> is_white_space(#[trigger] s@[i])),
{
    let n = s.unicode_len();
    let mut i: usize = 0;
    while i < n
        invariant
            n == s@.len(),
            i <= n,
            forall|j: int| 0 <= j < i ==> is_white_space(#[trigger] s@[j]),
        decreases n - i,
    {
        if !white_space(s.get_char(i)) {
            return false;
        }
        i = i + 1;
    }
    true
}

/// What `str::to_lowercase` makes of a string.
pub uninterp spec fn lowercase(s: Seq<char>) -> Seq<char>;

/// `str::to_lowercase`: the string with every character mapped to its lower case.
///
/// The result is named, not spelled out: it follows Unicode's case tables.
#[verifier::external_body]
fn to_lowercase(s: &str) -> (r: String)
    ensures
        r@ == lowercase(s@),
{
    s.to_lowercase()
}

/// A lower-cased answer that means yes.
pub fn answer_is_yes(lowered: &str) -> (r: bool)
    ensures
        r == (lowered@ == "y"@ || lowered@ == "yes"@),
{
    str_eq(lowered, "y") || str_eq(lowered, "yes")
}

/// A typed answer to a y/N prompt means yes: trimmed and lower-cased, it is `y` or `yes`.
pub fn is_yes(line: &str) -> (r: bool)
    ensures
        r == (lowercase(trimmed(line@)) == "y"@ || lowercase(trimmed(line@)) == "yes"@),
{
    let t = trim(line);
    let lowered = to_lowercase(t);
    answer_is_yes(lowered.as_str())
}

} // verus!
