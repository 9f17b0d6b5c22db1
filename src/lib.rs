//! Telemetry acquisition client core, plus two small language interpreters.
pub mod acquisition;
pub mod bytes;
pub mod checksum;
pub mod cow;
pub mod frame;
pub mod lifecycle;
pub mod numeral;
pub mod pascal;
pub mod reader;
pub mod render;
pub mod stats;
pub mod temperature;
