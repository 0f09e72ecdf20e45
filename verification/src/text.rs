//! String helpers shared by the key-matching code.

use vstd::prelude::*;

verus! {

/// Equality of string slices, `<str as PartialEq>::eq` of the standard
/// library: two slices are equal exactly when they hold the same characters.
pub assume_specification[ <str as PartialEq>::eq ](a: &str, b: &str) -> (r: bool)
    ensures
        r == (a@ == b@),
;

/// Whether `list` holds a string equal to `key`.
pub open spec fn lists_key(list: Seq<String>, key: Seq<char>) -> bool {
    exists|i: int| 0 <= i < list.len() && (#[trigger] list[i])@ == key
}

/// Linear search for `key` in `list`.
pub fn contains_key(list: &Vec<String>, key: &str) -> (found: bool)
    ensures
        found == lists_key(list@, key@),
{
    let mut i: usize = 0;
    while i < list.len()
        invariant
            i <= list.len(),
            forall|j: int| 0 <= j < i ==> (#[trigger] list@[j])@ != key@,
        decreases list.len() - i,
    {
        if list[i].as_str().eq(key) {
            return true;
        }
        i += 1;
    }
    false
}

} // verus!
