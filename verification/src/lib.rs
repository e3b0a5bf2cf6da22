//! Counts non-blank logical lines of text: a line counts when it ends in a
//! line feed and holds at least one non-whitespace character before that
//! terminator. The crate offers the single-pass classifier itself, the
//! UTF-8 gate that lets raw file bytes reach it, the saturating accumulator
//! that folds per-entry totals without wrapping, and the stable descending
//! sort that orders the final report.

pub mod aggregate;
pub mod classifier;
pub mod content;
pub mod report;
