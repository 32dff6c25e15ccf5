//! The levels of the messages that the stages of the compiler report.
use vstd::prelude::*;

verus! {

/// How severe a message is, from the most to the least severe.
#[derive(Clone, Copy, Debug, PartialEq, Eq, Structural, PartialOrd, Ord, Hash)]
pub enum MessageLevel {
    Fatal,
    Error,
    Warning,
    MinorWarning,
    Info,
    Success,
}

} // verus!
