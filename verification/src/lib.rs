//! A lossless, fault-tolerant parser for GraphQL, October 2021 edition, and
//! a small encoder for schema definitions.
//!
//! The parser keeps every token that it accepts, trivia included, in a
//! concrete syntax tree, and collects errors instead of stopping at the
//! first mistake:
//!
//! - [`lexer`] turns text into tokens and lexical errors;
//! - [`builder`] assembles trees, [`tree`] holds them;
//! - [`parser`] has the operations that a grammar is written with, [`state`]
//!   says what each of them does, and `Parser::parse` follows the grammar;
//! - [`syntax`] finds the way through a tree, and [`ast`] gives each kind of
//!   node a type with accessors of its own;
//! - [`laws`] holds what is true of every tree and of every parse;
//! - [`encoder`] prints definitions of a schema.
//!
//! Every function is verified. Contracts say which tokens the lexer yields,
//! which tree and which errors the parser builds, and which text the encoder
//! prints.
pub mod ast;
pub mod builder;
pub mod encoder;
pub mod error;
pub(crate) mod grammar;
pub mod laws;
pub mod lexer;
pub mod parser;
pub mod seqs;
pub mod state;
pub mod syntax;
pub mod syntax_kind;
pub mod text;
pub mod token;
pub mod tree;

pub use builder::{SyntaxTree, SyntaxTreeBuilder};
pub use encoder::enum_value::{EnumValue, EnumValueBuilder};
pub use encoder::string_value::StringValue;
pub use encoder::union_def::UnionDef;
pub use error::Error;
pub use parser::Parser;
pub use syntax_kind::SyntaxKind;
pub use token::{Token, TokenKind};
