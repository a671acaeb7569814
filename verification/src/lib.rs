//! Mercury: the logic of a home sensor network backend.
//!
//! Sensor units report temperature and humidity readings; this library holds
//! the rules that decide which sensors are shown, how their readings are laid
//! out, when a reading raises or clears a notification, and how the YAML
//! settings file is read.
pub mod text;
pub mod decimal;
pub mod sensors;
pub mod notify;
pub mod yaml;
pub mod settings;
pub mod clock;
pub mod readings;
pub mod weather;
