//! Small executable helpers on characters and strings.

use vstd::prelude::*;
use vstd::string::StrSliceExecFns;

verus! {

/// The characters of a list of character vectors, as a sequence of sequences.
pub open spec fn units_view(list: Seq<Vec<char>>) -> Seq<Seq<char>> {
    list.map_values(|u: Vec<char>| u@)
}

/// The characters of each word in a list of strings.
pub open spec fn words_view(ws: Seq<String>) -> Seq<Seq<char>> {
    ws.map_values(|w: String| w@)
}

/// The characters of a string slice, in order, as a vector.
pub fn str_to_vec(s: &str) -> (r: Vec<char>)
    ensures
        r@ == s@,
{
    let n = s.unicode_len();
    let mut r: Vec<char> = Vec::new();
    let mut i: usize = 0;
    while i < n
        invariant
            n == s@.len(),
            i <= n,
            r@ == s@.subrange(0, i as int),
        decreases n - i,
    {
        r.push(s.get_char(i));
        proof {
            assert(r@ =~= s@.subrange(0, i + 1));
        }
        i = i + 1;
    }
    proof {
        assert(r@ =~= s@);
    }
    r
}

/// Relies on `String`'s `FromIterator<char>` (through `Iterator::collect`):
/// the characters are appended in order, so the result views as the input.
#[verifier::external_body]
pub fn chars_to_string(v: &Vec<char>) -> (r: String)
    ensures
        r@ == v@,
{
    v.iter().collect()
}

/// Whether two character vectors hold the same characters in the same order.
pub fn chars_eq(a: &Vec<char>, b: &Vec<char>) -> (r: bool)
    ensures
        r == (a@ == b@),
{
    if a.len() != b.len() {
        return false;
    }
    let mut i: usize = 0;
    while i < a.len()
        invariant
            i <= a.len(),
            a@.len() == b@.len(),
            forall|j: int| 0 <= j < i ==> a@[j] == b@[j],
        decreases a.len() - i,
    {
        if a[i] != b[i] {
            return false;
        }
        i = i + 1;
    }
    proof {
        assert(a@ =~= b@);
    }
    true
}

/// Whether `list` holds a vector with the same characters as `u`.
pub fn units_contain(list: &Vec<Vec<char>>, u: &Vec<char>) -> (r: bool)
    ensures
        r == units_view(list@).contains(u@),
{
    let mut i: usize = 0;
    while i < list.len()
        invariant
            i <= list.len(),
            forall|j: int| 0 <= j < i ==> units_view(list@)[j] != u@,
        decreases list.len() - i,
    {
        if chars_eq(&list[i], u) {
            proof {
                assert(units_view(list@)[i as int] == u@);
            }
            return true;
        }
        i = i + 1;
    }
    proof {
        assert(forall|j: int| 0 <= j < list@.len() ==> units_view(list@)[j] != u@);
        assert(!units_view(list@).contains(u@));
    }
    false
}

} // verus!
