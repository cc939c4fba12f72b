//! A recursive-descent parser that turns a finite token sequence into a
//! statement tree, stamping every expression node with a run-unique identity
//! and resolving type annotations through an embedded type grammar.
#![verifier::loop_isolation(false)]

pub mod ast;
pub mod diag;
pub mod parser;
pub mod token;
