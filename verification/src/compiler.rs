//! Errors of a compilation, one per stage.
use vstd::prelude::*;
use vstd::string::StringExecFns;

use crate::ast::error::{spec_display_message, ASTError};

verus! {

/// Why compiling a source file failed.
///
/// What the stages outside this library report is held as the text they
/// describe themselves by.
pub enum CompilerError {
    /// The source file could not be read; the text is the reader's message.
    ReadSourceError(String),
    /// The source could not be split into tokens; the text is the tokenizer's message.
    TokenParseError(String),
    /// The tokens did not form valid syntax.
    ASTParseError(ASTError),
    /// Symbols could not be resolved; one text per resolution error.
    ResolutionError(Vec<String>),
}

/// `items` joined by `", "`.
pub open spec fn spec_joined(items: Seq<Seq<char>>) -> Seq<char>
    decreases items.len(),
{
    if items.len() == 0 {
        Seq::empty()
    } else if items.len() == 1 {
        items[0]
    } else {
        spec_joined(items.drop_last()) + ", "@ + items.last()
    }
}

/// The message of a compilation error.
pub open spec fn spec_compiler_error_message(error: CompilerError) -> Seq<char> {
    match error {
        CompilerError::ReadSourceError(text) => "Failed to read source: "@ + text@,
        CompilerError::TokenParseError(text) => "Failed to parse tokens: "@ + text@,
        CompilerError::ASTParseError(inner) => "Failed to match syntax: "@ + spec_display_message(inner),
        CompilerError::ResolutionError(texts) => "Failed to resolve symbols: ["@ + spec_joined(
            texts@.map_values(|text: String| text@),
        ) + "]"@,
    }
}

impl CompilerError {
    pub open spec fn wf(&self) -> bool {
        self matches CompilerError::ASTParseError(inner) ==> inner.wf()
    }

    pub fn getErrorMessage(&self) -> (message: String)
        requires
            self.wf(),
        ensures
            message@ == spec_compiler_error_message(*self),
    {
        match self {
            CompilerError::ReadSourceError(text) => String::from_str("Failed to read source: ").concat(text.as_str()),
            CompilerError::TokenParseError(text) => String::from_str("Failed to parse tokens: ").concat(text.as_str()),
            CompilerError::ASTParseError(inner) => String::from_str("Failed to match syntax: ").concat(
                inner.getDisplayMessage().as_str(),
            ),
            CompilerError::ResolutionError(texts) => {
                let ghost items = texts@.map_values(|text: String| text@);
                let mut joined = String::new();
                let mut i: usize = 0;
                while i < texts.len()
                    invariant
                        i <= texts.len(),
                        items == texts@.map_values(|text: String| text@),
                        joined@ == spec_joined(items.take(i as int)),
                    decreases texts.len() - i,
                {
                    assert(items.take(i as int + 1).drop_last() == items.take(i as int));
                    if i > 0 {
                        joined = joined.concat(", ");
                    }
                    joined = joined.concat(texts[i].as_str());
                    i = i + 1;
                }
                assert(items.take(texts.len() as int) == items);
                String::from_str("Failed to resolve symbols: [").concat(joined.as_str()).concat("]")
            },
        }
    }
}

} // verus!
