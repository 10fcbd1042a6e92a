//! Verified core of the `dpia` weather station: sensor frame decoding,
//! checksums, the persisted configuration record, text rendering for the
//! display and the upload query, the power-status framing and the
//! weekday/weekend power schedule.
pub mod decimal;
pub mod checksum;
pub mod convert;
pub mod sensiron;
pub mod persistent;
pub mod clock;
pub mod display;
pub mod data;
pub mod ep0159;
pub mod bt;
pub mod text;
