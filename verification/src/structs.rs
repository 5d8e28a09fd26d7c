//! The records that a document is decoded into, and those of a result sheet.

pub mod fssummary;
pub mod horse;
pub mod horsesummary;
pub mod race;
pub mod racesummary;
pub mod sectionsummary;
