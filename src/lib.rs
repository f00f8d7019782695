//! Type-coercion engine for exporting columnar tables to spreadsheet formats.
//!
//! Each column's logical type is classified into a conversion decision, a
//! configurable policy decides what happens to lossy conversions, and the
//! whole table yields one plan of column rewrites that is computed before any
//! rewrite is applied.

pub mod dtype;
pub mod policy;
pub mod plan;
pub mod text;
pub mod format;
