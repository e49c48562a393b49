//! Transpiler tests: from program text to the JSON document.

use fsl::transpiler::fsl_transpiler::Fslt;

const PLUSFOO_PLUSBAR: &str = "me: @jeff\n+repo me/foo > x\n+repo me/bar > y\n";
const APPLICATION: &str = "me: @jeff\n+repo me/foo > x\n+issue testing -> x\n";

#[test]
fn transpiles_program_as_string() {
    let program = String::from("me: @jeff\n");
    let fsl = Fslt::program(program);
    let ast = fsl.out().expect("Failed to parse program");
    assert_eq!(fsl.report(), "Transpiled 1 line(s) of FSL code to JSON!");
    assert_eq!(ast["login"].as_str(), Some("@jeff"));
}

#[test]
fn transpiles_full_program() {
    let transpiler = Fslt::program(String::from(PLUSFOO_PLUSBAR));
    let ast = transpiler.out().expect("Failed to parse program");
    let commands = ast["commands"].as_array().expect("Failed to get commands");
    let first = commands.first().expect("Failed to get first command");
    let second = commands.get(1).expect("Failed to get second command");
    assert_eq!(commands.len(), 2);
    assert_eq!(ast["login"].as_str(), Some("@jeff"));
    assert_eq!(first["oid"].as_str(), Some("repo"));
    assert_eq!(first["attrs"].as_str(), Some("me/foo"));
    assert_eq!(first["ref"].as_str(), Some("x"));
    assert_eq!(second["oid"].as_str(), Some("repo"));
    assert_eq!(second["attrs"].as_str(), Some("me/bar"));
    assert_eq!(second["ref"].as_str(), Some("y"));
}

#[test]
fn transpiles_program_with_application() {
    let transpiler = Fslt::program(String::from(APPLICATION));
    let ast = transpiler.out().expect("Failed to parse program");
    let commands = ast["commands"].as_array().expect("Failed to get commands");
    let command = commands
        .iter()
        .find(|c| c["oid"].as_str() == Some("issue"))
        .expect("Failed to find command");
    assert_eq!(command["application"].as_str(), Some("x"));
}

#[test]
fn builds_ast_with_optional_fields_absent() {
    let transpiler = Fslt::program(String::from("me: @jeff\n+fork\n"));
    let ast = transpiler.ast().expect("Failed to parse program");
    assert_eq!(ast.login, "@jeff");
    assert_eq!(ast.commands.len(), 1);
    assert_eq!(ast.commands[0].oid, "fork");
    assert_eq!(ast.commands[0].attributes, None);
    assert_eq!(ast.commands[0].new_ref, None);
    assert_eq!(ast.commands[0].application_ref, None);
    let out = transpiler.out().expect("Failed to parse program");
    let first = &out["commands"].as_array().expect("Failed to get commands")[0];
    assert_eq!(first.get("attrs"), None);
    assert_eq!(first.get("ref"), None);
    assert_eq!(first.get("application"), None);
}

#[test]
fn counts_commands_not_comments() {
    let transpiler = Fslt::program(String::from(
        "# intro\nme: @jeff\n# one\n+repo me/foo > x\n\n# two\n+repo me/bar > y\n",
    ));
    let ast = transpiler.ast().expect("Failed to parse program");
    assert_eq!(ast.commands.len(), 2);
}

#[test]
fn reports_line_counts() {
    assert_eq!(
        Fslt::program(String::new()).report(),
        "Transpiled 0 line(s) of FSL code to JSON!"
    );
    assert_eq!(
        Fslt::program(String::from("me: @jeff")).report(),
        "Transpiled 1 line(s) of FSL code to JSON!"
    );
    let twelve = String::from("me: @jeff\n") + &"+repo me/foo > x\n".repeat(11);
    assert_eq!(
        Fslt::program(twelve).report(),
        "Transpiled 12 line(s) of FSL code to JSON!"
    );
}

#[test]
fn fails_on_malformed_program() {
    let transpiler = Fslt::program(String::from("bogus"));
    let e = transpiler.out().err().expect("Failed to get error");
    assert_eq!(e.fragment, "bogus");
    assert!(Fslt::program(String::from("me: @\n")).ast().is_err());
    assert!(Fslt::program(String::from("me: @jeff\n+repo > 9x\n")).ast().is_err());
}
