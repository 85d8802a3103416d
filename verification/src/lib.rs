//! Parking-restriction logic for the Malmö street-cleaning app: calendar and
//! Swedish local time, restriction timing, urgency buckets, address validation,
//! persistence records, transition tracking and notification planning.
use vstd::prelude::*;

pub mod calendar;
pub mod swedish_time;
pub mod structs;
pub mod text;
pub mod components;
pub mod countdown;
pub mod storage;
pub mod notifications;
pub mod ui;
pub mod android_bridge;
pub mod android_utils;
pub mod webview_config;

verus! {

} // verus!
