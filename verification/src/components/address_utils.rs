//! Address string normalisation for comparisons.
use vstd::prelude::*;
use crate::text::{lowercase, to_lowercase, trim, trim_str};

verus! {

/// Normalises a string for comparison: trims white space and maps it to lower case.
pub fn normalize_string(s: &str) -> (r: String)
    ensures
        r@ == lowercase(trim(s@)),
{
    to_lowercase(trim_str(s))
}

} // verus!
