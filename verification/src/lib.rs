//! Telemetry-to-display logic of a racing HUD: parsing of the backend's telemetry
//! documents, the lap timer state machine, the timing tower window and gaps, the
//! radar payload, the input overlay's rolling history, the overlay options, and the
//! text each overlay shows.

pub mod text;
pub mod error;
pub mod json;
pub mod lap_timer;
pub mod timing_tower;
pub mod track_radar;
pub mod options;
pub mod presentation;
pub mod history;
