//! Paths that no visitor has a reason to ask for.

use crate::text::same_str;
use vstd::prelude::*;

verus! {

/// Whether `path` is one of the honeypot paths.
pub open spec fn honeypot_path(path: Seq<char>, honeypots: Seq<String>) -> bool {
    exists|i: int| 0 <= i < honeypots.len() && (#[trigger] honeypots[i])@ == path
}

/// Whether `path` is one of the honeypot paths.
pub fn is_honeypot(path: &str, honeypots: &[String]) -> (r: bool)
    ensures
        r == honeypot_path(path@, honeypots@),
{
    let mut i: usize = 0;
    while i < honeypots.len()
        invariant
            i <= honeypots.len(),
            forall|j: int| 0 <= j < i ==> (#[trigger] honeypots@[j])@ != path@,
        decreases honeypots.len() - i,
    {
        if same_str(honeypots[i].as_str(), path) {
            return true;
        }
        i = i + 1;
    }
    false
}

} // verus!
