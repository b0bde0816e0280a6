//! The logic behind a small C-callable bridge function: the lines it writes
//! for an input, and the decimal formatting they rely on.

pub mod bridge;
pub mod decimal;
