//! Small verified helpers over `String` and `&str` that the rest of the
//! library leans on: equality of slices, membership in a name list, and
//! appending a single character.

use vstd::prelude::*;
use vstd::string::*;

verus! {

/// True when the two slices hold the same characters.
pub fn str_eq(a: &str, b: &str) -> (r: bool)
    ensures
        r == (a@ == b@),
{
    let sa: String = a.to_owned();
    let sb: String = b.to_owned();
    sa == sb
}

/// Appends one character to a string.
/// Relies on `String::push`: appends exactly that character.
#[verifier::external_body]
pub fn push_char(s: &mut String, c: char)
    ensures
        final(s)@ == old(s)@ + seq![c],
{
    s.push(c);
}

/// True when the list holds a string equal to `needle`.
pub fn contains_str(v: &Vec<String>, needle: &str) -> (r: bool)
    ensures
        r == v.deep_view().contains(needle@),
{
    let mut i: usize = 0;
    while i < v.len()
        invariant
            i <= v@.len(),
            forall|j: int| 0 <= j < i ==> v.deep_view()[j] != needle@,
        decreases v@.len() - i,
    {
        if str_eq(v[i].as_str(), needle) {
            assert(v.deep_view()[i as int] == needle@);
            return true;
        }
        assert(v.deep_view()[i as int] == v@[i as int]@);
        i += 1;
    }
    assert(!v.deep_view().contains(needle@)) by {
        if v.deep_view().contains(needle@) {
            let j = choose|j: int| 0 <= j < v.deep_view().len() && v.deep_view()[j] == needle@;
            assert(v.deep_view()[j] != needle@);
        }
    }
    false
}

} // verus!
