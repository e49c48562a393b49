//! The duplicate-declaration check.

use vstd::prelude::*;
use vstd::string::StringExecFns;

use crate::ast::new_refs;
use crate::ast::AstView;
use crate::ast::Program;
use crate::text::bracketed_list;
use crate::text::quoted_list;
use crate::transpiler::errors::check::Check;

verus! {

/// The declarations that repeat an earlier one: every entry of `rs` that
/// already occurred before its position, in order.
pub open spec fn repeated(rs: Seq<Seq<char>>) -> Seq<Seq<char>>
    decreases rs.len(),
{
    if rs.len() == 0 {
        Seq::empty()
    } else {
        let rest = repeated(rs.drop_last());
        if rs.drop_last().contains(rs.last()) {
            rest.push(rs.last())
        } else {
            rest
        }
    }
}

/// The one diagnostic of the duplicate-declaration check, listing the
/// repeated declarations.
pub open spec fn duplicate_refs_message(ds: Seq<Seq<char>>) -> Seq<char> {
    "Duplicated refs: "@ + bracketed_list(ds)
}

/// What the check reports: one diagnostic naming every repeated
/// declaration when any declaration repeats, and nothing otherwise.
pub open spec fn duplicate_refs_diags(ast: AstView) -> Seq<Seq<char>> {
    let ds = repeated(new_refs(ast.commands));
    if ds.len() > 0 {
        seq![duplicate_refs_message(ds)]
    } else {
        Seq::empty()
    }
}

/// No entry repeats exactly when no two positions hold the same name.
pub proof fn lemma_repeated_empty_iff_unique(rs: Seq<Seq<char>>)
    ensures
        repeated(rs).len() == 0 <==> (forall|i: int, j: int|
            0 <= i < j < rs.len() ==> rs[i] != rs[j]),
    decreases rs.len(),
{
    if rs.len() > 0 {
        let dl = rs.drop_last();
        lemma_repeated_empty_iff_unique(dl);
        assert(forall|i: int| 0 <= i < dl.len() ==> dl[i] == rs[i]);
        if repeated(rs).len() == 0 {
            assert forall|i: int, j: int| 0 <= i < j < rs.len() implies rs[i] != rs[j] by {
                if j < rs.len() - 1 {
                    assert(dl[i] != dl[j]);
                } else {
                    assert(!dl.contains(rs.last()));
                    assert(dl[i] == rs[i]);
                }
            }
        } else {
            if repeated(dl).len() == 0 {
                assert(dl.contains(rs.last()));
                let i = choose|i: int| 0 <= i < dl.len() && dl[i] == rs.last();
                assert(rs[i] == rs[rs.len() - 1]);
            }
        }
    }
}

/// The duplicate-declaration check reports nothing exactly when every
/// declared reference is declared once: a program declaring some `> x`
/// twice gets a diagnostic, and one whose declarations are all distinct
/// gets none.  Applications play no role either way.
pub proof fn lemma_duplicate_refs_empty_iff(ast: AstView)
    ensures
        duplicate_refs_diags(ast).len() == 0 <==> (forall|i: int, j: int|
            0 <= i < j < new_refs(ast.commands).len() ==> new_refs(ast.commands)[i] != new_refs(
                ast.commands,
            )[j]),
{
    lemma_repeated_empty_iff_unique(new_refs(ast.commands));
}

/// Whether a name equal to `t` stands among the first `upto` entries of
/// `rs`.
fn contains_before(rs: &Vec<String>, upto: usize, t: &String) -> (r: bool)
    requires
        upto <= rs@.len(),
    ensures
        r == rs.deep_view().take(upto as int).contains(t@),
{
    let mut j: usize = 0;
    while j < upto
        invariant
            j <= upto <= rs@.len(),
            forall|k: int| 0 <= k < j ==> rs.deep_view()[k] != t@,
        decreases upto - j,
    {
        if rs[j] == *t {
            proof {
                assert(rs.deep_view().take(upto as int)[j as int] == t@);
            }
            return true;
        }
        j = j + 1;
    }
    proof {
        if rs.deep_view().take(upto as int).contains(t@) {
            let k = choose|k: int|
                0 <= k < upto && #[trigger] rs.deep_view().take(upto as int)[k] == t@;
            assert(rs.deep_view()[k] == t@);
            assert(false);
        }
    }
    false
}

/// Collects the declared references of a document, in source order.
pub fn collect_new_refs(ast: &Program) -> (r: Vec<String>)
    ensures
        r.deep_view() == new_refs(ast@.commands),
{
    let mut refs: Vec<String> = Vec::new();
    let mut i: usize = 0;
    let ghost cs = ast@.commands;
    while i < ast.commands.len()
        invariant
            i <= ast.commands@.len(),
            cs == ast@.commands,
            cs.len() == ast.commands@.len(),
            refs.deep_view() == new_refs(cs.take(i as int)),
        decreases ast.commands@.len() - i,
    {
        proof {
            assert(cs.take(i + 1).drop_last() =~= cs.take(i as int));
            assert(cs.take(i + 1).last() == ast.commands@[i as int]@);
        }
        match &ast.commands[i].new_ref {
            Some(t) => {
                let ghost old_refs = refs.deep_view();
                refs.push(t.clone());
                proof {
                    assert(refs.deep_view() =~= old_refs.push(t@));
                }
            },
            None => {},
        }
        i = i + 1;
    }
    proof {
        assert(cs.take(cs.len() as int) =~= cs);
    }
    refs
}

/// Collects the references that repeat an earlier declaration, in source
/// order, one entry per repetition.
pub fn collect_repeated(ast: &Program) -> (r: Vec<String>)
    ensures
        r.deep_view() == repeated(new_refs(ast@.commands)),
{
    let refs = collect_new_refs(ast);
    let mut dups: Vec<String> = Vec::new();
    let mut i: usize = 0;
    let ghost rs = refs.deep_view();
    while i < refs.len()
        invariant
            i <= refs@.len(),
            rs == refs.deep_view(),
            rs.len() == refs@.len(),
            dups.deep_view() == repeated(rs.take(i as int)),
        decreases refs@.len() - i,
    {
        proof {
            assert(rs.take(i + 1).drop_last() =~= rs.take(i as int));
            assert(rs.take(i + 1).last() == rs[i as int]);
        }
        if contains_before(&refs, i, &refs[i]) {
            let ghost old_dups = dups.deep_view();
            let d = refs[i].clone();
            dups.push(d);
            proof {
                assert(dups.deep_view() =~= old_dups.push(rs[i as int]));
            }
        }
        i = i + 1;
    }
    proof {
        assert(rs.take(rs.len() as int) =~= rs);
    }
    dups
}

/// The duplicate-declaration check: it reports the references that more
/// than one command declares via `> name`.  Applications play no role;
/// a reference declared twice is reported even when every application of
/// it is valid.
pub struct DuplicateRefs {}

impl Check for DuplicateRefs {
    open spec fn spec_inspect(&self, ast: AstView) -> Seq<Seq<char>> {
        duplicate_refs_diags(ast)
    }

    fn inspect(&self, ast: &Program) -> (r: Vec<String>)
        ensures
            r.deep_view() == self.spec_inspect(ast@),
    {
        let dups = collect_repeated(ast);
        let mut out: Vec<String> = Vec::new();
        if dups.len() > 0 {
            let mut message = "Duplicated refs: ".to_owned();
            message.append(quoted_list(&dups).as_str());
            out.push(message);
            proof {
                assert(out.deep_view() =~= duplicate_refs_diags(ast@));
            }
        } else {
            proof {
                assert(out.deep_view() =~= duplicate_refs_diags(ast@));
            }
        }
        out
    }
}

} // verus!
