//! The bootstrap compiler: its own spaces and flows, a primitive registry,
//! lexer, parser, type inference and a C99 emitter.

pub mod ast;
pub mod registry;
pub mod lexer;
pub mod parser;
pub mod checker;
pub mod emitter;
