//! Small conveniences over token lists.

use vstd::prelude::*;

verus! {

/// The token at `index`, or an empty string when the list is shorter:
/// reading past the end of a token list is a soft miss, not a fault.
pub fn ss_get(parts: &Vec<String>, index: usize) -> (r: String)
    ensures
        index < parts@.len() ==> r@ == parts@[index as int]@,
        index >= parts@.len() ==> r@ == Seq::<char>::empty(),
{
    if index < parts.len() {
        parts[index].clone()
    } else {
        String::new()
    }
}

} // verus!
