//! Tools that turn a GitHub user's daily activity over a date range into a
//! dense week-by-weekday matrix and into an OpenSCAD data block.

pub mod calendar;
pub mod generators;
pub mod github;
pub mod matrix;
pub mod openscad;
pub mod text;
