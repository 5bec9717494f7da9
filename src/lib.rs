//! Text-mode chart of hourly air-pressure readings.
//!
//! A reading is a whole number of tenths of a hectopascal. The library turns
//! the cell texts of a station's hourly table into readings, lays the latest
//! window of readings out on an occupancy grid, and renders that grid as text.

pub mod reading;
pub mod layout;
pub mod render;
pub mod extract;
