//! A business-hours status engine: a catalog of venues, each with a weekly
//! schedule of opening and closing hours, is validated for internal
//! consistency, and queried against a reference instant to decide whether a
//! venue is open, closed, or opening later.

pub mod clock;
pub mod common;
pub mod data;
pub mod text;
