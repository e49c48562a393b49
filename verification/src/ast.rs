//! The FSL document model: the structured program that a successful parse
//! builds, and the builder that walks a syntax tree into it.

use vstd::prelude::*;

use crate::grammar::count_plus_lines;
use crate::grammar::is_plus_line;
use crate::grammar::kind_wf;
use crate::grammar::lemma_ws_end;
use crate::grammar::line_kind;
use crate::grammar::line_kinds;
use crate::grammar::parse_program;
use crate::grammar::program_items;
use crate::grammar::program_wf;
use crate::grammar::spec_lines;
use crate::grammar::ws_end;
use crate::grammar::ItemView;
use crate::grammar::LineKind;
use crate::grammar::ObjectView;
use crate::grammar::ProgramView;
use crate::parser::fsl_parser::opt_text;
use crate::parser::fsl_parser::ItemNode;
use crate::parser::fsl_parser::ProgramNode;

verus! {

/// One command of a program: one `+` line.
pub struct Command {
    /// The kind of entity the command acts on, for instance `repo` or
    /// `issue`.
    pub oid: String,
    /// The free-form attribute payload, captured verbatim and not
    /// interpreted further.
    pub attributes: Option<String>,
    /// The reference the command declares via `> name`, when present.
    pub new_ref: Option<String>,
    /// The reference the command applies via `-> name`, when present.
    pub application_ref: Option<String>,
}

impl View for Command {
    type V = ObjectView;

    open spec fn view(&self) -> ObjectView {
        ObjectView {
            oid: self.oid@,
            attributes: opt_text(self.attributes),
            new_ref: opt_text(self.new_ref),
            application_ref: opt_text(self.application_ref),
        }
    }
}

/// The view of a sequence of commands.
pub open spec fn commands_view(s: Seq<Command>) -> Seq<ObjectView> {
    Seq::new(s.len(), |i: int| s[i]@)
}

/// What a program document holds.
#[verifier::ext_equal]
pub struct AstView {
    pub login: Seq<char>,
    pub commands: Seq<ObjectView>,
}

/// A parsed program: the author's login and the commands, in source
/// order.
pub struct Program {
    /// The login token of the `me` line, `@` included.
    pub login: String,
    /// The commands, in source order.
    pub commands: Vec<Command>,
}

impl View for Program {
    type V = AstView;

    open spec fn view(&self) -> AstView {
        AstView { login: self.login@, commands: commands_view(self.commands@) }
    }
}

/// The commands among a syntax tree's items, in order; comments
/// contribute none.
pub open spec fn commands_of_items(items: Seq<ItemView>) -> Seq<ObjectView>
    decreases items.len(),
{
    if items.len() == 0 {
        Seq::empty()
    } else {
        let rest = commands_of_items(items.drop_last());
        match items.last() {
            ItemView::Command(o) => rest.push(o),
            ItemView::Comment(_) => rest,
        }
    }
}

/// What the builder gives on a syntax tree: the tree's login, and its
/// command items in source order, the comments dropped.
pub open spec fn build_view(t: ProgramView) -> AstView {
    AstView { login: t.login, commands: commands_of_items(t.items) }
}

/// The references the commands declare via `> name`, in source order,
/// one entry for each declaring command.
pub open spec fn new_refs(cs: Seq<ObjectView>) -> Seq<Seq<char>>
    decreases cs.len(),
{
    if cs.len() == 0 {
        Seq::empty()
    } else {
        let rest = new_refs(cs.drop_last());
        match cs.last().new_ref {
            Some(r) => rest.push(r),
            None => rest,
        }
    }
}

/// The references the commands apply via `-> name`, in source order, one
/// entry for each applying command.
pub open spec fn application_refs(cs: Seq<ObjectView>) -> Seq<Seq<char>>
    decreases cs.len(),
{
    if cs.len() == 0 {
        Seq::empty()
    } else {
        let rest = application_refs(cs.drop_last());
        match cs.last().application_ref {
            Some(r) => rest.push(r),
            None => rest,
        }
    }
}

/// How many of the lines are command lines.
pub open spec fn count_commands(ks: Seq<LineKind>) -> int
    decreases ks.len(),
{
    if ks.len() == 0 {
        0
    } else {
        count_commands(ks.drop_last()) + if ks.last() is Command {
            1int
        } else {
            0int
        }
    }
}

/// A program's items hold one command for each command line.
proof fn lemma_items_commands_len(ks: Seq<LineKind>)
    ensures
        commands_of_items(program_items(ks)).len() == count_commands(ks),
    decreases ks.len(),
{
    if ks.len() > 0 {
        lemma_items_commands_len(ks.drop_last());
        match ks.last() {
            LineKind::Command(o) => {
                assert(program_items(ks).drop_last() =~= program_items(ks.drop_last()));
            },
            LineKind::Comment(t) => {
                assert(program_items(ks).drop_last() =~= program_items(ks.drop_last()));
            },
            _ => {},
        }
    }
}

/// On a line that matches some production, being a command line is the
/// same as starting with `+`.
proof fn lemma_command_iff_plus(l: Seq<char>)
    requires
        kind_wf(line_kind(l)),
    ensures
        line_kind(l) is Command <==> is_plus_line(l),
{
    lemma_ws_end(l, 0);
}

/// Among lines that all match some production, the command lines are
/// the `+`-prefixed ones.
proof fn lemma_count_commands_plus(ls: Seq<Seq<char>>)
    requires
        forall|i: int| 0 <= i < ls.len() ==> kind_wf(line_kind(#[trigger] ls[i])),
    ensures
        count_commands(ls.map_values(|l: Seq<char>| line_kind(l))) == count_plus_lines(ls),
    decreases ls.len(),
{
    let ks = ls.map_values(|l: Seq<char>| line_kind(l));
    if ls.len() > 0 {
        assert(ks.drop_last() =~= ls.drop_last().map_values(|l: Seq<char>| line_kind(l)));
        lemma_count_commands_plus(ls.drop_last());
        assert(ks.last() == line_kind(ls.last()));
        lemma_command_iff_plus(ls.last());
    }
}

/// A well-formed program builds to one command per `+`-prefixed line:
/// comments, blank lines and the `me` line contribute none, and no
/// command line is dropped, reordered or deduplicated.
pub proof fn lemma_build_counts_commands(s: Seq<char>)
    requires
        parse_program(s) is Some,
    ensures
        build_view(parse_program(s)->Some_0).commands.len() == count_plus_lines(spec_lines(s)),
{
    let ls = spec_lines(s);
    let ks = line_kinds(s);
    assert(program_wf(ks));
    assert forall|i: int| 0 <= i < ls.len() implies kind_wf(line_kind(#[trigger] ls[i])) by {
        assert(ks[i] == line_kind(ls[i]));
    }
    lemma_items_commands_len(ks);
    lemma_count_commands_plus(ls);
}

/// Clones an optional token.
fn clone_opt(o: &Option<String>) -> (r: Option<String>)
    ensures
        r == *o,
{
    match o {
        Some(t) => Some(t.clone()),
        None => None,
    }
}

/// Builds the document of a syntax tree: walks the tree's items once, in
/// source order, keeps every command, and drops every comment.  On a
/// typed syntax tree no malformed shape can arise, so the builder cannot
/// fail.
pub fn build(tree: &ProgramNode) -> (p: Program)
    ensures
        p@ == build_view(tree@),
{
    let mut commands: Vec<Command> = Vec::new();
    let mut i: usize = 0;
    let ghost items = crate::parser::fsl_parser::items_view(tree.items@);
    while i < tree.items.len()
        invariant
            i <= tree.items@.len(),
            items == crate::parser::fsl_parser::items_view(tree.items@),
            items.len() == tree.items@.len(),
            commands_view(commands@) == commands_of_items(items.take(i as int)),
        decreases tree.items@.len() - i,
    {
        proof {
            assert(items.take(i + 1).drop_last() =~= items.take(i as int));
            assert(items.take(i + 1).last() == tree.items@[i as int]@);
        }
        match &tree.items[i] {
            ItemNode::Command(o) => {
                let ghost old_commands = commands@;
                commands.push(
                    Command {
                        oid: o.oid.clone(),
                        attributes: clone_opt(&o.attributes),
                        new_ref: clone_opt(&o.new_ref),
                        application_ref: clone_opt(&o.application_ref),
                    },
                );
                proof {
                    assert(commands@[old_commands.len() as int]@ == tree.items@[i as int]@->Command_0);
                    assert(commands_view(commands@) =~= commands_view(old_commands).push(
                        commands@[old_commands.len() as int]@,
                    ));
                }
            },
            ItemNode::Comment(_) => {},
        }
        i = i + 1;
    }
    proof {
        assert(items.take(tree.items@.len() as int) =~= items);
    }
    let p = Program { login: tree.login.clone(), commands };
    proof {
        assert(p@ =~= build_view(tree@));
    }
    p
}

} // verus!
