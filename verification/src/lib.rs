//! Semantic front end for a GLSL-style shader language: type-specifier and
//! qualifier parsing, identifier resolution (locals, globals, built-ins) and
//! declaration building against an arena-based typed IR module.

pub mod ast;
pub mod context;
pub mod error;
pub mod ir;
pub mod laws;
pub mod module;
pub mod parser;
pub mod span;
pub mod token;
pub mod types;
pub mod variables;
