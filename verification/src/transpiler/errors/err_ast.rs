//! The check-decorated document: a transpiler together with an ordered
//! list of semantic checks, and the JSON output that carries the
//! document and every check's diagnostics.

use vstd::prelude::*;

use crate::ast::build_view;
use crate::ast::AstView;
use crate::grammar::parse_program;
use crate::output::assemble;
use crate::output::document_value;
use crate::output::OutputDoc;
use crate::parser::fsl_parser::Rule;
use crate::parser::fsl_parser::SyntaxError;
use crate::transpiler::errors::check::Check;
use crate::transpiler::errors::duplicate_refs::duplicate_refs_diags;
use crate::transpiler::errors::duplicate_refs::DuplicateRefs;
use crate::transpiler::fsl_transpiler::Fslt;

verus! {

/// The diagnostics of every check, concatenated in check-list order;
/// within one check, in that check's own emission order.
pub open spec fn aggregate_diags(cs: Seq<Box<dyn Check>>, ast: AstView) -> Seq<Seq<char>>
    decreases cs.len(),
{
    if cs.len() == 0 {
        Seq::empty()
    } else {
        aggregate_diags(cs.drop_last(), ast) + cs.last().spec_inspect(ast)
    }
}

/// A document decorated with semantic diagnostics: a transpiler for the
/// program text, and the checks to run over the document it builds.
pub struct ErrAst {
    /// The transpiler whose document is decorated.
    pub base: Fslt,
    /// The checks, in the order their diagnostics appear.
    pub checks: Vec<Box<dyn Check>>,
}

impl ErrAst {
    /// A decorated document with the standard check list: the
    /// duplicate-declaration check.
    pub fn default(base: Fslt) -> (r: ErrAst)
        ensures
            r.base == base,
            r.checks@.len() == 1,
            forall|a: AstView| #[trigger] r.checks@[0].spec_inspect(a) == duplicate_refs_diags(a),
    {
        let checks: Vec<Box<dyn Check>> = vec![Box::new(DuplicateRefs {})];
        ErrAst { base, checks }
    }

    /// A decorated document with the given check list.
    pub fn new(base: Fslt, checks: Vec<Box<dyn Check>>) -> (r: ErrAst)
        ensures
            r.base == base,
            r.checks == checks,
    {
        ErrAst { base, checks }
    }

    /// Parses the program, builds its document, runs every check over
    /// it — all of them, whatever the earlier ones reported — and
    /// assembles the document with the aggregated diagnostics.  Fails
    /// exactly when the text is not a well-formed program; diagnostics
    /// never fail a run.
    pub fn document(&self) -> (r: Result<OutputDoc, SyntaxError>)
        ensures
            r is Ok <==> parse_program(self.base.program@) is Some,
            r matches Ok(d) ==> {
                let ast = build_view(parse_program(self.base.program@)->Some_0);
                d@.program == ast && d@.errors == aggregate_diags(self.checks@, ast)
            },
            r matches Err(e) ==> e.rule == Rule::Program && e.fragment@ == self.base.program@,
    {
        let ast = match self.base.ast() {
            Ok(a) => a,
            Err(e) => {
                return Err(e);
            },
        };
        let mut errors: Vec<String> = Vec::new();
        let mut i: usize = 0;
        while i < self.checks.len()
            invariant
                i <= self.checks@.len(),
                ast@ == build_view(parse_program(self.base.program@)->Some_0),
                errors.deep_view() == aggregate_diags(self.checks@.take(i as int), ast@),
            decreases self.checks@.len() - i,
        {
            proof {
                assert(self.checks@.take(i + 1).drop_last() =~= self.checks@.take(i as int));
                assert(self.checks@.take(i + 1).last() == self.checks@[i as int]);
            }
            let ghost old_errors = errors.deep_view();
            let mut part = self.checks[i].inspect(&ast);
            let ghost part_view = part.deep_view();
            errors.append(&mut part);
            proof {
                assert(errors.deep_view() =~= old_errors + part_view);
            }
            i = i + 1;
        }
        proof {
            assert(self.checks@.take(self.checks@.len() as int) =~= self.checks@);
        }
        Ok(assemble(ast, errors))
    }

    /// Renders the decorated document as a JSON value: the program's
    /// `login` and `commands`, and the aggregated diagnostics under
    /// `errors`.  Succeeds exactly when the text is a well-formed
    /// program.
    pub fn decorate(&self) -> (r: Result<serde_json::Value, SyntaxError>)
        ensures
            r is Ok <==> parse_program(self.base.program@) is Some,
            r matches Err(e) ==> e.rule == Rule::Program && e.fragment@ == self.base.program@,
    {
        match self.document() {
            Ok(d) => Ok(document_value(&d)),
            Err(e) => Err(e),
        }
    }
}

} // verus!
