//! Connectivity extraction and electrical rule checking for schematics.
//!
//! Nets are rebuilt from raw geometry (wire polylines and pin positions),
//! a fixed battery of rules is evaluated against them, and the findings are
//! assembled into a report with statistics.

pub mod geometry;
pub mod model;
pub mod text;
pub mod connectivity;
pub mod laws;
pub mod report;
pub mod rules;
pub mod erc;
pub mod error;
pub mod validators;
pub mod validation;
pub mod files;
pub mod export;
pub mod project;
pub mod bom;
