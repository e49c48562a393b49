//! The FSL compiler front end: holds a program text and its parser and
//! reports completion.

use vstd::prelude::*;

use crate::parser::fsl_parser::FslParser;

verus! {

/// An FSL compiler for one program text.
pub struct Fslc {
    /// The program to compile.
    pub program: String,
    /// The parser.
    pub parser: FslParser,
}

impl Fslc {
    /// A compiler for the given program text.
    pub fn program(program: String) -> (r: Fslc)
        ensures
            r.program == program,
    {
        Fslc { program, parser: FslParser {  } }
    }

    /// Finishes the run and gives its completion report.
    pub fn out(self) -> (r: String)
        ensures
            r@ == "Done!"@,
    {
        "Done!".to_owned()
    }
}

} // verus!
