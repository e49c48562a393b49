//! The FSL transpiler: parses a program text and renders it as a JSON
//! document.

use vstd::prelude::*;
use vstd::string::StringExecFns;

use crate::ast::build;
use crate::ast::build_view;
use crate::ast::Program;
use crate::grammar::line_count;
use crate::grammar::parse_program;
use crate::output::program_value;
use crate::parser::fsl_parser::FslParser;
use crate::parser::fsl_parser::Node;
use crate::parser::fsl_parser::Rule;
use crate::parser::fsl_parser::SyntaxError;
use crate::text::count_lines;
use crate::text::dec_digits;
use crate::text::usize_string;

verus! {

/// The report a transpiler run gives: how many lines of FSL it worked
/// through.
pub open spec fn report_text(s: Seq<char>) -> Seq<char> {
    "Transpiled "@ + dec_digits(line_count(s)) + " line(s) of FSL code to JSON!"@
}

/// An FSL transpiler for one program text.
pub struct Fslt {
    /// The program to transpile.
    pub program: String,
}

impl Fslt {
    /// A transpiler for the given program text.
    pub fn program(program: String) -> (r: Fslt)
        ensures
            r.program == program,
    {
        Fslt { program }
    }

    /// Parses the program and builds its document: the login and the
    /// commands, in source order.  Fails exactly when the text is not a
    /// well-formed program, and then names the rejected input.
    pub fn ast(&self) -> (r: Result<Program, SyntaxError>)
        ensures
            r is Ok <==> parse_program(self.program@) is Some,
            r matches Ok(p) ==> p@ == build_view(parse_program(self.program@)->Some_0),
            r matches Err(e) ==> e.rule == Rule::Program && e.fragment@ == self.program@,
    {
        match FslParser::parse(Rule::Program, self.program.as_str()) {
            Ok(parsed) => match parsed.node {
                Node::Program(tree) => Ok(build(&tree)),
                _ => {
                    proof {
                        assert(false);
                    }
                    Err(SyntaxError { rule: Rule::Program, fragment: String::new() })
                },
            },
            Err(e) => Err(e),
        }
    }

    /// Parses the program and renders its document as a JSON value with
    /// the members `login` and `commands`.  Succeeds exactly when the
    /// text is a well-formed program.
    pub fn out(&self) -> (r: Result<serde_json::Value, SyntaxError>)
        ensures
            r is Ok <==> parse_program(self.program@) is Some,
            r matches Err(e) ==> e.rule == Rule::Program && e.fragment@ == self.program@,
    {
        match self.ast() {
            Ok(p) => Ok(program_value(&p)),
            Err(e) => Err(e),
        }
    }

    /// The run report: names the number of lines of the program text.
    pub fn report(&self) -> (r: String)
        ensures
            r@ == report_text(self.program@),
    {
        let lines = count_lines(self.program.as_str());
        let mut r = "Transpiled ".to_owned();
        r.append(usize_string(lines).as_str());
        r.append(" line(s) of FSL code to JSON!");
        proof {
            assert(r@ =~= report_text(self.program@));
        }
        r
    }
}

} // verus!
