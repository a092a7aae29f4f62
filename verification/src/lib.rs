//! A line diff. Two sequences of lines are compared by the table of their
//! edit distances: every cell holds the least cost of turning a prefix of the
//! first sequence into a prefix of the second, and the operation that reaches
//! it. The edit script is read back from the table's last cell to its origin.
//!
//! - [`edit`]: the four operations, as values and as mathematical objects.
//! - [`distance`]: the recurrence that defines every cell, and the script.
//! - [`table`]: the builder that fills the table.
//! - [`script`]: the walk back through the table, and the diff as a whole.
//! - [`apply`]: what a script costs and what it makes of a sequence.
//! - [`levenshtein`]: the textbook account of the edit distance.
//! - [`laws`]: what holds of every diff.
//! - [`number`], [`render`], [`trace`]: scripts and tables as text.

pub mod apply;
pub mod distance;
pub mod edit;
pub mod laws;
pub mod levenshtein;
pub mod number;
pub mod render;
pub mod script;
pub mod table;
pub mod trace;
