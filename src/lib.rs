//! Project templates: directory trees whose files and names may hold `${...}`
//! expressions, expanded against variables when a template is loaded.
//!
//! The expression language (lexer, parser, evaluator) and the decisions of the
//! tree walk are verified here; reading and writing files is left to the caller.
use vstd::prelude::*;

pub mod args;
pub mod ast;
pub mod chars;
pub mod commander;
pub mod config;
pub mod error;
pub mod eval;
pub mod laws;
pub mod lexer;
pub mod maker;
pub mod parser;
pub mod paths;
pub mod strmap;
pub mod text;

verus! {

} // verus!
