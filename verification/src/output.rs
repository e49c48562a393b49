//! The output document: the assembled pair of a program document and its
//! diagnostics, and its rendering as a JSON value.
//!
//! The JSON value itself is built through `serde_json` and is opaque to
//! the contracts here: everything the library states holds of the
//! [`OutputDoc`] that the rendering takes as its input.  The wire shape
//! is flat: `login`, `commands` (each with `oid` and its optional
//! `attrs`, `ref` and `application` fields), and `errors`.

use vstd::prelude::*;

use crate::ast::AstView;
use crate::ast::Command;
use crate::ast::Program;

verus! {

/// What an output document holds: the program document and the
/// diagnostics, exactly as assembled.
#[verifier::ext_equal]
pub struct DocView {
    pub program: AstView,
    pub errors: Seq<Seq<char>>,
}

/// One pipeline output: a program document together with the semantic
/// diagnostics collected over it.
pub struct OutputDoc {
    /// The program document.
    pub program: Program,
    /// The diagnostics, in check-list order.
    pub errors: Vec<String>,
}

impl View for OutputDoc {
    type V = DocView;

    open spec fn view(&self) -> DocView {
        DocView { program: self.program@, errors: self.errors.deep_view() }
    }
}

/// Assembles a program document and its diagnostics into one output
/// document.  Pure combination: the result holds exactly what was handed
/// in, so equal inputs always assemble to equal documents.
pub fn assemble(program: Program, errors: Vec<String>) -> (d: OutputDoc)
    ensures
        d@ == (DocView { program: program@, errors: errors.deep_view() }),
{
    let d = OutputDoc { program, errors };
    proof {
        assert(d@ =~= (DocView { program: d.program@, errors: d.errors.deep_view() }));
    }
    d
}

/// Assembling is deterministic: two output documents assembled from the
/// same program document and the same diagnostics are the same document.
/// Nothing of the check pipeline's ordering hides in the result.
pub proof fn lemma_assemble_deterministic(d1: DocView, d2: DocView, p: AstView, e: Seq<Seq<char>>)
    requires
        d1 == (DocView { program: p, errors: e }),
        d2 == (DocView { program: p, errors: e }),
    ensures
        d1 == d2,
{
}

// ---------------------------------------------------------------------------
// The JSON shell
// ---------------------------------------------------------------------------

#[verifier::external_type_specification]
#[verifier::external_body]
pub struct ExValue(serde_json::Value);

/// Relies on `serde_json::Value::String`: wraps a string as a JSON
/// string value.
#[verifier::external_body]
fn json_string(s: String) -> serde_json::Value {
    serde_json::Value::String(s)
}

/// Relies on `serde_json::Value::Array`: wraps the values as a JSON
/// array, in order.
#[verifier::external_body]
fn json_array(items: Vec<serde_json::Value>) -> serde_json::Value {
    serde_json::Value::Array(items)
}

/// Relies on `serde_json::Value::Object` and `serde_json::Map`'s
/// `FromIterator`: wraps the pairs as a JSON object, one member per
/// pair.
#[verifier::external_body]
fn json_object(pairs: Vec<(String, serde_json::Value)>) -> serde_json::Value {
    serde_json::Value::Object(pairs.into_iter().collect())
}

/// Renders one command as a JSON object: its `oid`, and `attrs`, `ref`
/// and `application` members exactly for the optional fields it has.
fn command_value(c: &Command) -> serde_json::Value {
    let mut pairs: Vec<(String, serde_json::Value)> = Vec::new();
    pairs.push(("oid".to_owned(), json_string(c.oid.clone())));
    match &c.attributes {
        Some(a) => pairs.push(("attrs".to_owned(), json_string(a.clone()))),
        None => {},
    }
    match &c.new_ref {
        Some(r) => pairs.push(("ref".to_owned(), json_string(r.clone()))),
        None => {},
    }
    match &c.application_ref {
        Some(r) => pairs.push(("application".to_owned(), json_string(r.clone()))),
        None => {},
    }
    json_object(pairs)
}

/// Renders a program document as a JSON object with its `login` and its
/// `commands`, in source order.
pub(crate) fn program_value(p: &Program) -> serde_json::Value {
    let mut commands: Vec<serde_json::Value> = Vec::new();
    let mut i: usize = 0;
    while i < p.commands.len()
        decreases p.commands@.len() - i,
    {
        commands.push(command_value(&p.commands[i]));
        i = i + 1;
    }
    let mut pairs: Vec<(String, serde_json::Value)> = Vec::new();
    pairs.push(("login".to_owned(), json_string(p.login.clone())));
    pairs.push(("commands".to_owned(), json_array(commands)));
    json_object(pairs)
}

/// Renders an output document as a JSON object: the program's `login`
/// and `commands`, and the diagnostics under `errors`, in order.
pub(crate) fn document_value(d: &OutputDoc) -> serde_json::Value {
    let mut commands: Vec<serde_json::Value> = Vec::new();
    let mut i: usize = 0;
    while i < d.program.commands.len()
        decreases d.program.commands@.len() - i,
    {
        commands.push(command_value(&d.program.commands[i]));
        i = i + 1;
    }
    let mut errors: Vec<serde_json::Value> = Vec::new();
    let mut j: usize = 0;
    while j < d.errors.len()
        decreases d.errors@.len() - j,
    {
        errors.push(json_string(d.errors[j].clone()));
        j = j + 1;
    }
    let mut pairs: Vec<(String, serde_json::Value)> = Vec::new();
    pairs.push(("login".to_owned(), json_string(d.program.login.clone())));
    pairs.push(("commands".to_owned(), json_array(commands)));
    pairs.push(("errors".to_owned(), json_array(errors)));
    json_object(pairs)
}

} // verus!
