//! Compiler front-end tests.

use fsl::compiler::fsl_compiler::Fslc;

#[test]
fn compiles_program_as_string() {
    let report = Fslc::program(String::from("me: @jeff +repo me/foo")).out();
    assert_eq!(report, "Done!");
}

#[test]
fn keeps_program_text() {
    let compiler = Fslc::program(String::from("me: @jeff\n"));
    assert_eq!(compiler.program, "me: @jeff\n");
}
