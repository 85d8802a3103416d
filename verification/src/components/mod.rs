//! Business logic of the app: address handling, restriction timing, settings,
//! persistence records, transition tracking and notifications.
pub mod address_utils;
pub mod matching;
pub mod countdown;
pub mod transitions;
pub mod validity;
pub mod settings;
pub mod storage;
pub mod translations;
pub mod dormant;
pub mod notifications;
pub mod lifecycle;
pub mod debug;

