//! The logic of `gtm`, a command-line tool for the Google Tag Manager API:
//! what each command sends, how responses are filtered, explained and printed,
//! and how errors are reported.

pub mod agent;
pub mod destinations;
pub mod doctor;
pub mod error;
pub mod explain;
pub mod explain_report;
pub mod json;
pub mod laws;
pub mod output;
pub mod refs;
pub mod text;
pub mod variables;
pub mod zones;
