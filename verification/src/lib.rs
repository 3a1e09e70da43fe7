//! Front end for a Vimscript-like language: a lexer and a recursive-descent
//! parser with statement-level error recovery, both verified against
//! functional models of their behaviour.
pub mod ast;
pub mod ast_model;
pub mod format;
pub mod grammar;
pub mod laws;
pub mod lexer;
pub mod lsp;
pub mod parser;
pub mod peekable_chars_with_position;
pub mod protocol;
pub mod rename;
pub mod scanner;
pub mod server;
pub mod span;
pub mod syntax;
pub mod syntax_kind;
pub mod syntax_parser;
pub mod text;
pub mod token_iterator;
