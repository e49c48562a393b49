//! Check and pipeline tests: duplicate declarations, invalid
//! applications, and the decorated JSON document.

use fsl::transpiler::errors::check::Check;
use fsl::transpiler::errors::duplicate_refs::DuplicateRefs;
use fsl::transpiler::errors::invalid_application_ref::InvalidApplicationRef;
use fsl::transpiler::fsl_transpiler::Fslt;

const DUPLICATE_REFS: &str = "me: @jeff\n+repo me/foo > x\n+repo me/bar > x\n";
const INVALID_APPLICATION_REF: &str = "me: @jeff\n+issue testing -> x\n";
const CLEAN: &str = "me: @jeff\n+repo me/foo > x\n+repo me/bar > y\n";

#[test]
fn err_ast_adds_error_for_duplicate_refs() {
    let ast = fsl::transpiler::err_ast::ErrAst::new(Fslt::program(String::from(DUPLICATE_REFS)))
        .decorate()
        .expect("Failed to parse program");
    assert!(!ast["errors"].as_array().expect("failed to get errors").is_empty());
}

#[test]
fn errors_err_ast_adds_error_for_duplicate_refs() {
    let transpiler = Fslt::program(String::from(DUPLICATE_REFS));
    let decorated =
        fsl::transpiler::errors::err_ast::ErrAst::new(transpiler, vec![Box::new(DuplicateRefs {})])
            .decorate()
            .expect("Failed to parse program");
    let errors = decorated["errors"].as_array().expect("failed to get errors");
    assert!(!errors.is_empty());
}

#[test]
fn duplicate_refs_adds_error_for_duplicate_refs() {
    let ast = Fslt::program(String::from(DUPLICATE_REFS))
        .ast()
        .expect("Failed to parse program");
    let decorated = DuplicateRefs {}.inspect(&ast);
    assert!(!decorated.is_empty());
}

#[test]
fn adds_errors_for_invalid_application_ref() {
    let transpiler = Fslt::program(String::from(INVALID_APPLICATION_REF));
    let errors =
        InvalidApplicationRef {}.inspect(&transpiler.ast().expect("Failed to parse program"));
    assert!(!errors.is_empty());
}

#[test]
fn duplicate_refs_message_is_exact() {
    let ast = Fslt::program(String::from(DUPLICATE_REFS))
        .ast()
        .expect("Failed to parse program");
    let errors = DuplicateRefs {}.inspect(&ast);
    assert_eq!(errors, vec![String::from("Duplicated refs: [\"x\"]")]);
}

#[test]
fn duplicate_refs_lists_every_repetition() {
    let ast = Fslt::program(String::from(
        "me: @jeff\n+repo a > x\n+repo b > x\n+repo c > y\n+repo d > x\n+repo e > y\n",
    ))
    .ast()
    .expect("Failed to parse program");
    let errors = DuplicateRefs {}.inspect(&ast);
    assert_eq!(
        errors,
        vec![String::from("Duplicated refs: [\"x\", \"x\", \"y\"]")]
    );
}

#[test]
fn duplicate_refs_silent_on_unique_declarations() {
    let ast = Fslt::program(String::from(CLEAN))
        .ast()
        .expect("Failed to parse program");
    assert!(DuplicateRefs {}.inspect(&ast).is_empty());
}

#[test]
fn invalid_application_message_is_exact() {
    let ast = Fslt::program(String::from(INVALID_APPLICATION_REF))
        .ast()
        .expect("Failed to parse program");
    let errors = InvalidApplicationRef {}.inspect(&ast);
    assert_eq!(
        errors,
        vec![String::from("Invalid application -> x; Ref `x` does not exist")]
    );
}

#[test]
fn invalid_application_accepts_forward_references() {
    let ast = Fslt::program(String::from("me: @jeff\n+issue testing -> x\n+repo me/foo > x\n"))
        .ast()
        .expect("Failed to parse program");
    assert!(InvalidApplicationRef {}.inspect(&ast).is_empty());
}

#[test]
fn legacy_err_ast_message_is_exact() {
    let ast = fsl::transpiler::err_ast::ErrAst::new(Fslt::program(String::from(DUPLICATE_REFS)))
        .decorate()
        .expect("Failed to parse program");
    let errors = ast["errors"].as_array().expect("failed to get errors");
    assert_eq!(errors.len(), 1);
    assert_eq!(errors[0].as_str(), Some("Duplicate refs: [\"x\"]"));
}

#[test]
fn default_check_list_runs_duplicate_refs() {
    let decorated =
        fsl::transpiler::errors::err_ast::ErrAst::default(Fslt::program(String::from(
            DUPLICATE_REFS,
        )))
        .decorate()
        .expect("Failed to parse program");
    let errors = decorated["errors"].as_array().expect("failed to get errors");
    assert_eq!(errors.len(), 1);
    assert_eq!(errors[0].as_str(), Some("Duplicated refs: [\"x\"]"));
}

#[test]
fn pipeline_concatenates_diagnostics_in_check_order() {
    let program = "me: @jeff\n+repo a > x\n+repo b > x\n+issue c -> z\n";
    let checks: Vec<Box<dyn Check>> =
        vec![Box::new(DuplicateRefs {}), Box::new(InvalidApplicationRef {})];
    let decorated =
        fsl::transpiler::errors::err_ast::ErrAst::new(Fslt::program(String::from(program)), checks)
            .decorate()
            .expect("Failed to parse program");
    let errors = decorated["errors"].as_array().expect("failed to get errors");
    assert_eq!(errors.len(), 2);
    assert_eq!(errors[0].as_str(), Some("Duplicated refs: [\"x\"]"));
    assert_eq!(
        errors[1].as_str(),
        Some("Invalid application -> z; Ref `z` does not exist")
    );
}

#[test]
fn pipeline_runs_every_check_without_short_circuit() {
    let checks: Vec<Box<dyn Check>> =
        vec![Box::new(DuplicateRefs {}), Box::new(InvalidApplicationRef {})];
    let doc = fsl::transpiler::errors::err_ast::ErrAst::new(
        Fslt::program(String::from("me: @jeff\n+repo a > x\n+repo b > x\n+issue c -> z\n")),
        checks,
    )
    .document()
    .expect("Failed to parse program");
    assert_eq!(doc.errors.len(), 2);
}

#[test]
fn end_to_end_clean_program() {
    let decorated =
        fsl::transpiler::errors::err_ast::ErrAst::default(Fslt::program(String::from(CLEAN)))
            .decorate()
            .expect("Failed to parse program");
    assert_eq!(decorated["login"].as_str(), Some("@jeff"));
    let commands = decorated["commands"].as_array().expect("Failed to get commands");
    assert_eq!(commands.len(), 2);
    assert_eq!(commands[0]["oid"].as_str(), Some("repo"));
    assert_eq!(commands[0]["attrs"].as_str(), Some("me/foo"));
    assert_eq!(commands[0]["ref"].as_str(), Some("x"));
    assert_eq!(commands[1]["attrs"].as_str(), Some("me/bar"));
    assert_eq!(commands[1]["ref"].as_str(), Some("y"));
    let errors = decorated["errors"].as_array().expect("failed to get errors");
    assert!(errors.is_empty());
}

#[test]
fn end_to_end_undeclared_application() {
    let checks: Vec<Box<dyn Check>> = vec![Box::new(InvalidApplicationRef {})];
    let decorated = fsl::transpiler::errors::err_ast::ErrAst::new(
        Fslt::program(String::from(INVALID_APPLICATION_REF)),
        checks,
    )
    .decorate()
    .expect("Failed to parse program");
    let errors = decorated["errors"].as_array().expect("failed to get errors");
    assert_eq!(errors.len(), 1);
    assert!(errors[0].as_str().expect("failed to get error").contains("x"));
}

#[test]
fn decorating_twice_is_byte_identical() {
    let checks1: Vec<Box<dyn Check>> =
        vec![Box::new(DuplicateRefs {}), Box::new(InvalidApplicationRef {})];
    let checks2: Vec<Box<dyn Check>> =
        vec![Box::new(DuplicateRefs {}), Box::new(InvalidApplicationRef {})];
    let program = "me: @jeff\n+repo a > x\n+repo b > x\n+issue c -> z\n";
    let once = fsl::transpiler::errors::err_ast::ErrAst::new(
        Fslt::program(String::from(program)),
        checks1,
    )
    .decorate()
    .expect("Failed to parse program");
    let twice = fsl::transpiler::errors::err_ast::ErrAst::new(
        Fslt::program(String::from(program)),
        checks2,
    )
    .decorate()
    .expect("Failed to parse program");
    let a = serde_json::to_string(&once).expect("Failed to serialize");
    let b = serde_json::to_string(&twice).expect("Failed to serialize");
    assert_eq!(a, b);
}
