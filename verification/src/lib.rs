//! Offline malware triage: signature-driven file scanning combined with
//! static import-table heuristics, aggregated into a ranked risk report.
//!
//! The scan itself is a pipeline: [`scan`] drives the per-file outcomes and
//! the report counters, [`pe`] reads import tables out of executable bytes,
//! [`classifier`] and [`score`] turn imports into a per-file risk score,
//! [`report`] scores signature matches and holds the report model, and
//! [`hashing`], [`export`], [`rules`], [`timeline`] and [`ui`] cover content
//! hashes, the tabular export, rule-set update planning and display forms.

pub mod api;
pub mod classifier;
pub mod export;
pub mod format;
pub mod hashing;
pub mod pe;
pub mod report;
pub mod rules;
pub mod scan;
pub mod score;
pub mod text;
pub mod timeline;
pub mod ui;
