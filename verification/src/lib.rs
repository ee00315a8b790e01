//! Reconciliation of catalog snapshots.
//!
//! A catalog is a list of named items with a free-text description. Two
//! snapshots of it, the one persisted by the previous run and the one scraped
//! now, are reconciled into additions and removals; each change is announced
//! and the persisted snapshot is brought in line with the scraped one.
//!
//! - `item`: catalog items and the policies under which two are the same.
//! - `reconcile`: the diff of two snapshots, and the laws of diffs.
//! - `notice`: the texts of notices, summaries and diagnostics.
//! - `effect`: the side effects that a diff calls for.
//! - `orchestrator`: the decisions of a run, as a machine driven by events.
//! - `run`: the laws of whole runs.
//! - `convergence`: a model of the table, and why a second run is quiet.
//! - `config`: the settings of a deployment.
//! - `store`: the layout of an item as a table row.
//! - `scrape`: the items of a catalog page.

pub mod config;
pub mod convergence;
pub mod effect;
pub mod item;
pub mod notice;
pub mod orchestrator;
pub mod reconcile;
pub mod run;
pub mod scrape;
pub mod store;
