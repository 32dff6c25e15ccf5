#![allow(non_snake_case)]
//! Front end of a small compiled language: token modules, the symbol tree,
//! the matchers that turn tokens into symbols, operator precedence parsing,
//! conflict resolution between competing matches, and error reporting.
pub mod module;
pub mod text;
pub mod ast;
pub mod compiler;
pub mod logger;
pub mod backend;
