//! Device facts that the app reports outside Android.
use vstd::prelude::*;

verus! {

/// Manufacturer and model of the device; a fixed name outside Android.
pub fn get_device_info() -> (r: String)
    ensures
        r@ == "Mock Device (Testing)"@,
{
    String::from_str("Mock Device (Testing)")
}

} // verus!
