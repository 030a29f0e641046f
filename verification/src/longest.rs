//! Choosing the longer of two borrowed strings, the classic lifetime
//! exercise: both inputs and the result share one lifetime.

use vstd::prelude::*;
use vstd::string::StringSliceAdditionalSpecFns;

verus! {

/// The longer of the two strings, measured in bytes; the second one on a
/// tie.
pub fn func<'a>(s1: &'a str, s2: &'a str) -> (r: &'a str)
    ensures
        s1.spec_bytes().len() > s2.spec_bytes().len() ==> r == s1,
        s1.spec_bytes().len() <= s2.spec_bytes().len() ==> r == s2,
{
    if s1.as_bytes().len() > s2.as_bytes().len() {
        s1
    } else {
        s2
    }
}

} // verus!
