//! Totals the amounts found in free-form statement lines.
//!
//! A statement is plain text, one entry per line. An entry carries at most
//! one amount, written as `-$` followed by a decimal number; the amounts of
//! the entries that a filter pattern selects are added up in cents.

pub mod aggregate;
pub mod amount;
pub mod extract;
pub mod pattern;
pub mod report;
pub mod text;
