//! The invalid-application check.

use vstd::prelude::*;
use vstd::string::StringExecFns;

use crate::ast::application_refs;
use crate::ast::new_refs;
use crate::ast::AstView;
use crate::ast::Program;
use crate::transpiler::errors::check::Check;
use crate::transpiler::errors::duplicate_refs::collect_new_refs;

verus! {

/// The diagnostic naming one applied reference that no command declares.
pub open spec fn invalid_application_message(r: Seq<char>) -> Seq<char> {
    "Invalid application -> "@ + r + "; Ref `"@ + r + "` does not exist"@
}

/// One diagnostic for each entry of `apps` that is absent from
/// `declared`, in order.
pub open spec fn invalid_applications(apps: Seq<Seq<char>>, declared: Seq<Seq<char>>) -> Seq<
    Seq<char>,
>
    decreases apps.len(),
{
    if apps.len() == 0 {
        Seq::empty()
    } else {
        let rest = invalid_applications(apps.drop_last(), declared);
        if !declared.contains(apps.last()) {
            rest.push(invalid_application_message(apps.last()))
        } else {
            rest
        }
    }
}

/// What the check reports: one diagnostic for every application whose
/// reference no command declares.  Where a command declares the
/// reference makes no difference: applying a reference declared later in
/// the program is valid.
pub open spec fn invalid_application_diags(ast: AstView) -> Seq<Seq<char>> {
    invalid_applications(application_refs(ast.commands), new_refs(ast.commands))
}

/// The check reports nothing exactly when every applied reference is
/// declared somewhere: a program applying some `-> z` that no command
/// declares gets a diagnostic, and one whose applications all match a
/// declaration — earlier or later in the program — gets none.
pub proof fn lemma_invalid_applications_empty_iff(apps: Seq<Seq<char>>, declared: Seq<Seq<char>>)
    ensures
        invalid_applications(apps, declared).len() == 0 <==> (forall|i: int|
            0 <= i < apps.len() ==> declared.contains(#[trigger] apps[i])),
    decreases apps.len(),
{
    if apps.len() > 0 {
        let dl = apps.drop_last();
        lemma_invalid_applications_empty_iff(dl, declared);
        assert(forall|i: int| 0 <= i < dl.len() ==> dl[i] == apps[i]);
        if invalid_applications(apps, declared).len() == 0 {
            assert forall|i: int| 0 <= i < apps.len() implies declared.contains(
                #[trigger] apps[i],
            ) by {
                if i < apps.len() - 1 {
                    assert(dl[i] == apps[i]);
                }
            }
        } else {
            if invalid_applications(dl, declared).len() == 0 {
                assert(!declared.contains(apps.last()));
            }
        }
    }
}

/// Every application of an undeclared reference is reported: the
/// diagnostics hold the message naming it.
pub proof fn lemma_missing_application_reported(
    apps: Seq<Seq<char>>,
    declared: Seq<Seq<char>>,
    i: int,
)
    requires
        0 <= i < apps.len(),
        !declared.contains(apps[i]),
    ensures
        invalid_applications(apps, declared).contains(invalid_application_message(apps[i])),
    decreases apps.len(),
{
    let dl = apps.drop_last();
    let rest = invalid_applications(dl, declared);
    if i == apps.len() - 1 {
        assert(rest.push(invalid_application_message(apps.last()))[rest.len() as int]
            == invalid_application_message(apps[i]));
    } else {
        assert(dl[i] == apps[i]);
        lemma_missing_application_reported(dl, declared, i);
        let k = choose|k: int|
            0 <= k < rest.len() && rest[k] == invalid_application_message(apps[i]);
        if !declared.contains(apps.last()) {
            assert(rest.push(invalid_application_message(apps.last()))[k]
                == invalid_application_message(apps[i]));
        }
    }
}

/// The invalid-application law, stated on a document.
pub proof fn lemma_invalid_application_diags_empty_iff(ast: AstView)
    ensures
        invalid_application_diags(ast).len() == 0 <==> (forall|i: int|
            0 <= i < application_refs(ast.commands).len() ==> new_refs(ast.commands).contains(
                #[trigger] application_refs(ast.commands)[i],
            )),
{
    lemma_invalid_applications_empty_iff(
        application_refs(ast.commands),
        new_refs(ast.commands),
    );
}

/// Collects the applied references of a document, in source order.
fn collect_application_refs(ast: &Program) -> (r: Vec<String>)
    ensures
        r.deep_view() == application_refs(ast@.commands),
{
    let mut refs: Vec<String> = Vec::new();
    let mut i: usize = 0;
    let ghost cs = ast@.commands;
    while i < ast.commands.len()
        invariant
            i <= ast.commands@.len(),
            cs == ast@.commands,
            cs.len() == ast.commands@.len(),
            refs.deep_view() == application_refs(cs.take(i as int)),
        decreases ast.commands@.len() - i,
    {
        proof {
            assert(cs.take(i + 1).drop_last() =~= cs.take(i as int));
            assert(cs.take(i + 1).last() == ast.commands@[i as int]@);
        }
        match &ast.commands[i].application_ref {
            Some(t) => {
                let ghost old_refs = refs.deep_view();
                refs.push(t.clone());
                proof {
                    assert(refs.deep_view() =~= old_refs.push(t@));
                }
            },
            None => {},
        }
        i = i + 1;
    }
    proof {
        assert(cs.take(cs.len() as int) =~= cs);
    }
    refs
}

/// Whether a name equal to `t` stands in `rs`.
fn contains_name(rs: &Vec<String>, t: &String) -> (r: bool)
    ensures
        r == rs.deep_view().contains(t@),
{
    let mut j: usize = 0;
    while j < rs.len()
        invariant
            j <= rs@.len(),
            forall|k: int| 0 <= k < j ==> rs.deep_view()[k] != t@,
        decreases rs@.len() - j,
    {
        if rs[j] == *t {
            proof {
                assert(rs.deep_view()[j as int] == t@);
            }
            return true;
        }
        j = j + 1;
    }
    proof {
        if rs.deep_view().contains(t@) {
            let k = choose|k: int| 0 <= k < rs.deep_view().len() && #[trigger] rs.deep_view()[k]
                == t@;
            assert(false);
        }
    }
    false
}

/// The invalid-application check: it reports every application
/// `-> name` whose reference no command declares via `> name`.
pub struct InvalidApplicationRef {}

impl Check for InvalidApplicationRef {
    open spec fn spec_inspect(&self, ast: AstView) -> Seq<Seq<char>> {
        invalid_application_diags(ast)
    }

    fn inspect(&self, ast: &Program) -> (r: Vec<String>)
        ensures
            r.deep_view() == self.spec_inspect(ast@),
    {
        let declared = collect_new_refs(ast);
        let apps = collect_application_refs(ast);
        let mut out: Vec<String> = Vec::new();
        let mut i: usize = 0;
        let ghost aps = apps.deep_view();
        while i < apps.len()
            invariant
                i <= apps@.len(),
                aps == apps.deep_view(),
                aps.len() == apps@.len(),
                declared.deep_view() == new_refs(ast@.commands),
                out.deep_view() == invalid_applications(aps.take(i as int), declared.deep_view()),
            decreases apps@.len() - i,
        {
            proof {
                assert(aps.take(i + 1).drop_last() =~= aps.take(i as int));
                assert(aps.take(i + 1).last() == aps[i as int]);
            }
            if !contains_name(&declared, &apps[i]) {
                let mut message = "Invalid application -> ".to_owned();
                message.append(apps[i].as_str());
                message.append("; Ref `");
                message.append(apps[i].as_str());
                message.append("` does not exist");
                let ghost old_out = out.deep_view();
                proof {
                    assert(message@ =~= invalid_application_message(aps[i as int]));
                }
                out.push(message);
                proof {
                    assert(out.deep_view() =~= old_out.push(
                        invalid_application_message(aps[i as int]),
                    ));
                }
            }
            i = i + 1;
        }
        proof {
            assert(aps.take(aps.len() as int) =~= aps);
        }
        out
    }
}

} // verus!
