//! A document decorated with duplicate-declaration errors.
//!
//! This is the transpiler's own, fixed decoration: it always runs the
//! duplicate-declaration inspection, with its own wording.  The
//! configurable pipeline lives in
//! [`crate::transpiler::errors::err_ast`].

use vstd::prelude::*;
use vstd::string::StringExecFns;

use crate::ast::build_view;
use crate::ast::new_refs;
use crate::ast::AstView;
use crate::ast::Program;
use crate::grammar::parse_program;
use crate::output::assemble;
use crate::output::document_value;
use crate::parser::fsl_parser::Rule;
use crate::parser::fsl_parser::SyntaxError;
use crate::text::bracketed_list;
use crate::text::quoted_list;
use crate::transpiler::errors::duplicate_refs::collect_repeated;
use crate::transpiler::errors::duplicate_refs::repeated;
use crate::transpiler::fsl_transpiler::Fslt;

verus! {

/// The errors this decoration adds: one message listing every repeated
/// declaration when any declaration repeats, and nothing otherwise.
pub open spec fn duplicate_errors(ast: AstView) -> Seq<Seq<char>> {
    let ds = repeated(new_refs(ast.commands));
    if ds.len() > 0 {
        seq![("Duplicate refs: "@ + bracketed_list(ds))]
    } else {
        Seq::empty()
    }
}

/// Computes the errors of [`duplicate_errors`] on a document.
fn duplicate_errors_of(ast: &Program) -> (r: Vec<String>)
    ensures
        r.deep_view() == duplicate_errors(ast@),
{
    let dups = collect_repeated(ast);
    let mut out: Vec<String> = Vec::new();
    if dups.len() > 0 {
        let mut message = "Duplicate refs: ".to_owned();
        message.append(quoted_list(&dups).as_str());
        out.push(message);
        proof {
            assert(out.deep_view() =~= duplicate_errors(ast@));
        }
    } else {
        proof {
            assert(out.deep_view() =~= duplicate_errors(ast@));
        }
    }
    out
}

/// A document decorated with duplicate-declaration errors.
pub struct ErrAst {
    /// The transpiler whose document is decorated.
    pub base: Fslt,
}

impl ErrAst {
    /// A decorated document over the given transpiler.
    pub fn new(base: Fslt) -> (r: ErrAst)
        ensures
            r.base == base,
    {
        ErrAst { base }
    }

    /// Parses the program, inspects its document for repeated
    /// declarations, and renders the document as a JSON value with the
    /// errors under `errors`.  Succeeds exactly when the text is a
    /// well-formed program.
    pub fn decorate(self) -> (r: Result<serde_json::Value, SyntaxError>)
        ensures
            r is Ok <==> parse_program(self.base.program@) is Some,
            r matches Err(e) ==> e.rule == Rule::Program && e.fragment@ == self.base.program@,
    {
        let ast = match self.base.ast() {
            Ok(a) => a,
            Err(e) => {
                return Err(e);
            },
        };
        let errors = duplicate_errors_of(&ast);
        let doc = assemble(ast, errors);
        Ok(document_value(&doc))
    }
}

} // verus!
