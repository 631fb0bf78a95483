//! Per-activity split and pace analysis for fitness telemetry, with the
//! decision logic of the OAuth credential lifecycle used to fetch it.
pub mod activities;
pub mod auth;
pub mod dates;
pub mod pace;
pub mod splits;
pub mod text;
