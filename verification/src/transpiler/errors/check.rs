//! The capability that every semantic check exposes.

use vstd::prelude::*;

use crate::ast::AstView;
use crate::ast::Program;

verus! {

/// One semantic check: a pure inspection of a program document that
/// reports zero or more diagnostics.
///
/// What a check reports is a function of the document alone, stated by
/// [`Check::spec_inspect`]: a check neither alters the document nor
/// depends on when it runs, so its diagnostics are the same wherever it
/// stands in a check list.
pub trait Check {
    /// What the check reports on a document.
    spec fn spec_inspect(&self, ast: AstView) -> Seq<Seq<char>>;

    /// Inspects a document and reports its diagnostics.
    fn inspect(&self, ast: &Program) -> (r: Vec<String>)
        ensures
            r.deep_view() == self.spec_inspect(ast@),
    ;
}

} // verus!
