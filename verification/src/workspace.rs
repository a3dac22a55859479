use vstd::prelude::*;

verus! {

pub open spec fn is_lower_hex(c: char) -> bool {
    ('0' <= c && c <= '9') || ('a' <= c && c <= 'f')
}

/// The shape of a run id: a random (version 4) UUID as 32 lower-case hex digits.
pub open spec fn is_run_id(s: Seq<char>) -> bool {
    &&& s.len() == 32
    &&& forall|i: int| 0 <= i < 32 ==> is_lower_hex(#[trigger] s[i])
    &&& s[12] == '4'
    &&& (s[16] == '8' || s[16] == '9' || s[16] == 'a' || s[16] == 'b')
}

/// A fresh run id: `uuid::Uuid::new_v4()` in its simple form.
///
/// The crate writes the simple form as 32 lower-case hex digits and fixes the version digit
/// to 4 and the variant digit to one of 8, 9, a, b; the other digits are random, and nothing
/// is stated of them.
#[verifier::external_body]
pub fn new_run_id() -> (r: String)
    ensures
        is_run_id(r@),
{
    uuid::Uuid::new_v4().simple().to_string()
}

} // verus!
