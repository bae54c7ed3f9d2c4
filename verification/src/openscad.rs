//! OpenSCAD source text for activity data.

pub mod generators;
