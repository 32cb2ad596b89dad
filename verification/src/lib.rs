//! Instrumentation of fallible-marker expressions in a code unit.
//!
//! A fallible-marker expression evaluates an inner expression and, on
//! failure, aborts the enclosing unit and hands the failure to the caller.
//! This library rewrites every such marker inside a code unit so that the
//! failure path first attaches a provenance annotation, a short string
//! saying where the failure originated, before propagating as before.
//!
//! The pieces are:
//! - [`ast`]: the expression-tree and code-unit model the rewrite works on;
//! - [`label`]: the classifier that derives a provenance label from the
//!   shape of the wrapped expression, and the annotation-text builder;
//! - [`rewrite`]: the rewrite rule for one marker, the recursive walker
//!   that finds every marker, and the per-unit dispatcher;
//! - [`eval`]: a small evaluation model of the trees, used to state and
//!   prove what the rewrite changes and what it leaves alone;
//! - [`laws`]: the proved statements: the rewrite is success-path
//!   transparent, never duplicates an effect, and adds exactly one
//!   annotation per marker crossed by a propagating failure.

pub mod ast;
pub mod eval;
pub mod label;
pub mod laws;
pub mod rewrite;
