//! What holds of all code that lowering produces.

pub mod fresh;
pub mod labels;
pub mod reads;
pub mod short_circuit;
pub mod stmt_reads;
pub mod stmt_labels;
pub mod targets;
