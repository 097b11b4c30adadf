//! Translator between a Rust-like script language and Entry block projects.

pub mod asset;
pub mod block;
pub mod cli;
pub mod codegen;
pub mod compile;
pub mod decodegen;
pub mod deparse;
pub mod error;
pub mod extract;
pub mod ir;
pub mod json;
pub mod meaning;
pub mod parse;
pub mod project;
pub mod raise;

pub mod roundtrip;
pub mod script;
pub mod syntax;
pub mod unmapped;
pub mod text;
pub mod var;
