//! Location of the app's private files; only Android provides one.
use vstd::prelude::*;

verus! {

/// The app's private files directory: outside Android there is none.
pub fn get_android_files_dir() -> (r: Result<String, String>)
    ensures
        r matches Err(e) && e@ == "get_android_files_dir only works on Android"@,
{
    Err(String::from_str("get_android_files_dir only works on Android"))
}

/// Records the files directory for the storage modules: nothing to do outside
/// Android.
pub fn init_android_storage() -> (r: Result<(), String>)
    ensures
        r is Ok,
{
    Ok(())
}

} // verus!
