//! A verified semantic core for a small dynamically-typed scripting
//! language with first-class closures and single-inheritance classes.
//!
//! The crate holds the pieces that make scoping and dispatch behave
//! correctly: the chained [`environment::Environment`] store, the static
//! [`resolver::Resolver`] that computes binding distances, and the
//! [`interpreter::Interpreter`] that executes programs against the
//! resolved distances.  Programs are held as index-addressed arenas of
//! expression and statement nodes ([`program::Program`]), so that every
//! node has a stable identity and every recursion is well-founded.

pub mod tokens;
pub mod numbers;
pub mod errors;
pub mod environment;
pub mod expr;
pub mod stmt;
pub mod program;
pub mod class;
pub mod functions;
pub mod instance;
pub mod interpreter;
pub mod native_functions;
pub mod resolver;
pub mod lexer;
pub mod ast_printer;
