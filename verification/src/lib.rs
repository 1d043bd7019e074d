//! A battery gauge core: reads raw power-supply telemetry into typed
//! records, derives capacity and time-to-status-change estimates, and maps
//! a normalized capacity onto a fixed heat-map color gradient.
//!
//! All quantities are kept as exact integers and rationals ([`ratio::Ratio`]),
//! so every derived value is stated and proved exactly.

pub mod battery;
pub mod color;
pub mod ratio;
pub mod text;
