//! An interpreter for a small concatenative, stack-based language:
//! source text is lexed into tokens, the tokens are grouped into a
//! bracket-nested syntax tree, and the tree is executed against a single
//! evaluation stack with global name bindings.
//!
//! Every stage carries a contract against a mathematical model of the
//! language, and the executor is proved to follow a specification-level
//! interpreter step for step.
pub mod error;
pub mod number;
mod text;
pub mod lexer;
pub mod parser;
pub mod value;
pub mod render;
pub mod runtime;
