//! Verified core of a WLAN monitor: turning the raw records that the Native
//! WiFi API reports into display text, and deciding, step by step, how one
//! refresh of the access-point list proceeds and what it shows.

pub mod ap_detail;
pub mod ap_table;
pub mod convert;
pub mod native;
pub mod poller;
pub mod text;
pub mod types;
