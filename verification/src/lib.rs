//! Verified core of a concurrent secret-scanning utility.
//!
//! The library holds everything the scan decides: the pattern table, the
//! per-line case-folded matching model, text truncation, the per-file scan,
//! the extension filter that selects candidate files, the rendering of report
//! lines, and a multiset model showing that the set of findings does not
//! depend on how files are distributed over workers. Directory traversal,
//! file reading, thread and channel plumbing, and argument parsing live in
//! the surrounding binary and hand the library plain values.

pub mod fold;
pub mod matching;
pub mod patterns;
pub mod pipeline;
pub mod report;
pub mod scan;
pub mod walker;
