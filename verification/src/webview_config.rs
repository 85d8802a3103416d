//! Web view set-up, which only Android needs.
use vstd::prelude::*;

verus! {

/// Enables DOM storage in the web view: nothing to do outside Android.
pub fn configure_webview_dom_storage() -> (r: Result<(), String>)
    ensures
        r is Ok,
{
    Ok(())
}

/// Whether DOM storage is enabled: always outside Android.
pub fn verify_dom_storage_enabled() -> (r: Result<bool, String>)
    ensures
        r == Ok::<bool, String>(true),
{
    Ok(true)
}

} // verus!
