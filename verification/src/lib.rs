//! Verification run coordinator.
//!
//! This library schedules a configured set of independent verification
//! checks, tracks each check's lifecycle and outcome, and assembles the
//! results of a run into a structured, renderer-agnostic report.
//!
//! The pieces, leaves first:
//! - [`catalog`] and [`command`] model what a run is invoked with: the
//!   period, the catalog metadata, and the parsed command;
//! - [`filter`] derives the active check set from a catalog and an
//!   exclusion list;
//! - [`model`] is the mathematical image the contracts speak about;
//! - [`state`] accumulates per-check outcomes and run timing through the
//!   lifecycle hooks;
//! - [`coordinator`] drives the active set through those hooks;
//! - [`synthesizer`] turns the terminal run state and the exclusions into
//!   a summary of checks needing manual attention;
//! - [`report`] combines timing, summary and extraction metadata into one
//!   run report;
//! - [`errors`] is the taxonomy of the faults that abort a run.
//!
//! Command-line handling, archive extraction, the semantics of the
//! individual checks and the rendering of reports to files belong to the
//! surrounding application, not to this library.

pub mod catalog;
pub mod command;
pub mod errors;
pub mod coordinator;
pub mod filter;
pub mod model;
pub mod report;
pub mod state;
pub mod synthesizer;
