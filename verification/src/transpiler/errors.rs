//! Semantic checks and the check-decorated document.

pub mod check;
pub mod duplicate_refs;
pub mod err_ast;
pub mod invalid_application_ref;
