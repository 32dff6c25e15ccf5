//! Messages that the stages of the compiler report.
pub mod message;
