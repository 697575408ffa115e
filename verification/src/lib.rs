//! Statistics and chart-geometry engine for grouped experimental samples.
//!
//! The engine takes a table of `(group, data type, value)` rows, compares
//! each group against a designated control group, and produces descriptive
//! statistics, Welch-test significance decisions, and deterministic chart
//! layouts (box plot, beeswarm, normal-quantile), together with a
//! PowerPoint container for rendered chart images.
//!
//! Sample values are carried as the 64-bit patterns of the doubles they came
//! from; every decision the engine takes on them (classification, ordering,
//! selection, thresholds) is bit arithmetic verified here.  The floating
//! point arithmetic itself (means, variances, interpolation, distribution
//! functions) is left to the caller, which feeds its results back in.

pub mod decimal;
pub mod fbits;
pub mod geometry;
pub mod ppt;
pub mod stats;
pub mod strorder;
pub mod table;
