//! Usage statistics from a personal-data export archive.
//!
//! The archive's layout has changed over several generations of the format.
//! This library finds out which layout is present, turns the records of the
//! archive into a statistics report and an event report, and stays usable
//! when single records are malformed. It reads no files and decodes no JSON
//! itself: it is handed member names and decoded records, and says what is to
//! be read next.
//!
//! - [`archive`]: the index of member names.
//! - [`parser`]: layout resolution, channel discovery and aggregation, the
//!   event log, and the order of an extraction.
//! - [`ranking`]: size-bounded, stable rankings by count.
//! - [`words`]: the word-frequency table.
//! - [`payments`]: totals and the rendered list of a profile's payments.
//! - [`text`], [`timestamps`], [`pattern`], [`resources`]: text primitives
//!   and what is taken from outside crates.
//! - [`models`], [`error`]: the data model and the errors.

pub mod archive;
pub mod error;
pub mod models;
pub mod parser;
pub mod pattern;
pub mod payments;
pub mod ranking;
pub mod resources;
pub mod sequences;
pub mod text;
pub mod timestamps;
pub mod words;
