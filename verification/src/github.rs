//! Daily activity of a GitHub user over a date range.

pub mod activity;
pub mod contributions;
pub mod fetch;
