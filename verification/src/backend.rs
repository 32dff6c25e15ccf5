//! The last stage: turning the compiled program into an executable.
pub mod link;
