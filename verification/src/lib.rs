//! A tree-walking interpreter for the slang scripting language, built to compare three ways of
//! managing the memory of its records: never freeing, counting references, and tracing.

pub mod float;
pub mod text;
pub mod source;
pub mod table;
pub mod value;
pub mod heap;
pub mod environment;
pub mod stack;
pub mod expression;
pub mod statement;
pub mod token;
pub mod lexer;
pub mod grammar;
pub mod token_stream;
pub mod parser;
pub mod stats;
pub mod host;
pub mod operation;
pub mod render;
pub mod protocol;
pub mod semantics;
pub mod evaluator;
pub mod interpreter;
pub mod laws;
