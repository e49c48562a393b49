//! The FSL syntax parser.
//!
//! [`FslParser::parse`] matches an input text against one grammar rule.
//! The match is all-or-nothing: the rule must cover the whole input, and
//! a malformed login, reference or object id rejects the text as a whole.
//! A successful parse gives the rule's syntax tree node together with the
//! matched text; a failed one gives a [`SyntaxError`] naming the rule and
//! the rejected input.
//!
//! Every parsing function is written against the grammar of
//! [`crate::grammar`]: it succeeds exactly on the texts that the grammar
//! accepts, and what it returns equals what the grammar's own parsing
//! functions give.

use vstd::prelude::*;
use vstd::string::StrSliceExecFns;

use crate::grammar::ident_end;
use crate::grammar::is_attributes;
use crate::grammar::is_comment;
use crate::grammar::is_ident;
use crate::grammar::is_login;
use crate::grammar::is_reference;
use crate::grammar::kind_wf;
use crate::grammar::parse_application;
use crate::grammar::parse_command;
use crate::grammar::parse_new;
use crate::grammar::line_kind;
use crate::grammar::line_kinds;
use crate::grammar::lines_from;
use crate::grammar::parse_me;
use crate::grammar::parse_program;
use crate::grammar::program_items;
use crate::grammar::program_login;
use crate::grammar::program_wf;
use crate::grammar::spec_lines;
use crate::grammar::parse_object_at;
use crate::grammar::parse_reference_at;
use crate::grammar::ItemView;
use crate::grammar::LineKind;
use crate::grammar::ObjectView;
use crate::grammar::ProgramView;
use crate::grammar::is_ident_char;
use crate::grammar::is_letter;
use crate::grammar::is_lower;
use crate::grammar::is_marker_at;
use crate::grammar::is_reference_char;
use crate::grammar::is_ws;
use crate::grammar::lemma_ident_end;
use crate::grammar::lemma_marker_pos;
use crate::grammar::lemma_newline_pos;
use crate::grammar::lemma_reference_end;
use crate::grammar::lemma_rtrim_end;
use crate::grammar::lemma_ws_end;
use crate::grammar::marker_pos;
use crate::grammar::newline_pos;
use crate::grammar::reference_end;
use crate::grammar::rtrim_end;
use crate::grammar::ws_end;

verus! {

// ---------------------------------------------------------------------------
// Character classes, executably
// ---------------------------------------------------------------------------

/// Whether `c` is insignificant whitespace.
fn ws_char(c: char) -> (r: bool)
    ensures
        r == is_ws(c),
{
    c == ' ' || c == '\t'
}

/// Whether `c` is an ASCII letter.
fn letter_char(c: char) -> (r: bool)
    ensures
        r == is_letter(c),
{
    ('a' <= c && c <= 'z') || ('A' <= c && c <= 'Z')
}

/// Whether `c` may stand in an identifier after its first letter.
fn ident_char(c: char) -> (r: bool)
    ensures
        r == is_ident_char(c),
{
    letter_char(c) || ('0' <= c && c <= '9')
}

/// Whether `c` may stand in a reference after its first letter.
fn reference_char(c: char) -> (r: bool)
    ensures
        r == is_reference_char(c),
{
    ('a' <= c && c <= 'z') || ('0' <= c && c <= '9')
}

// ---------------------------------------------------------------------------
// Scans, executably
// ---------------------------------------------------------------------------

/// Scans past the whitespace that starts at `from`.
fn scan_ws(s: &str, from: usize, n: usize) -> (r: usize)
    requires
        from <= n == s@.len(),
    ensures
        r as int == ws_end(s@, from as int),
        from <= r <= n,
{
    let mut j = from;
    while j < n && ws_char(s.get_char(j))
        invariant
            from <= j <= n == s@.len(),
            ws_end(s@, from as int) == ws_end(s@, j as int),
        decreases n - j,
    {
        j = j + 1;
    }
    proof {
        assert(ws_end(s@, j as int) == j as int);
    }
    j
}

/// Scans past the identifier characters that start at `from`.
fn scan_ident(s: &str, from: usize, n: usize) -> (r: usize)
    requires
        from <= n == s@.len(),
    ensures
        r as int == ident_end(s@, from as int),
        from <= r <= n,
{
    let mut j = from;
    while j < n && ident_char(s.get_char(j))
        invariant
            from <= j <= n == s@.len(),
            ident_end(s@, from as int) == ident_end(s@, j as int),
        decreases n - j,
    {
        j = j + 1;
    }
    proof {
        assert(ident_end(s@, j as int) == j as int);
    }
    j
}

/// Scans past the reference characters that start at `from`.
fn scan_reference(s: &str, from: usize, n: usize) -> (r: usize)
    requires
        from <= n == s@.len(),
    ensures
        r as int == reference_end(s@, from as int),
        from <= r <= n,
{
    let mut j = from;
    while j < n && reference_char(s.get_char(j))
        invariant
            from <= j <= n == s@.len(),
            reference_end(s@, from as int) == reference_end(s@, j as int),
        decreases n - j,
    {
        j = j + 1;
    }
    proof {
        assert(reference_end(s@, j as int) == j as int);
    }
    j
}

/// Whether a `new` or `application` marker starts at `j`.
fn marker_at(s: &str, j: usize, n: usize) -> (r: bool)
    requires
        j < n == s@.len(),
    ensures
        r == is_marker_at(s@, j as int),
{
    let c = s.get_char(j);
    if c == '>' {
        true
    } else if c == '-' && j + 1 < n {
        s.get_char(j + 1) == '>'
    } else {
        false
    }
}

/// Scans to the first marker at or after `from`.
fn scan_marker(s: &str, from: usize, n: usize) -> (r: usize)
    requires
        from <= n == s@.len(),
    ensures
        r as int == marker_pos(s@, from as int),
        from <= r <= n,
{
    let mut j = from;
    while j < n && !marker_at(s, j, n)
        invariant
            from <= j <= n == s@.len(),
            marker_pos(s@, from as int) == marker_pos(s@, j as int),
        decreases n - j,
    {
        j = j + 1;
    }
    proof {
        assert(marker_pos(s@, j as int) == j as int);
    }
    j
}

/// Scans to the first newline at or after `from`.
fn scan_newline(s: &str, from: usize, n: usize) -> (r: usize)
    requires
        from <= n == s@.len(),
    ensures
        r as int == newline_pos(s@, from as int),
        from <= r <= n,
{
    let mut j = from;
    while j < n && s.get_char(j) != '\n'
        invariant
            from <= j <= n == s@.len(),
            newline_pos(s@, from as int) == newline_pos(s@, j as int),
        decreases n - j,
    {
        j = j + 1;
    }
    proof {
        assert(newline_pos(s@, j as int) == j as int);
    }
    j
}

/// Scans backwards from `upto` past trailing whitespace.
fn scan_rtrim(s: &str, upto: usize) -> (r: usize)
    requires
        upto <= s@.len(),
    ensures
        r as int == rtrim_end(s@, upto as int),
        r <= upto,
{
    let mut j = upto;
    while j > 0 && ws_char(s.get_char(j - 1))
        invariant
            j <= upto <= s@.len(),
            rtrim_end(s@, upto as int) == rtrim_end(s@, j as int),
        decreases j,
    {
        j = j - 1;
    }
    proof {
        assert(rtrim_end(s@, j as int) == j as int);
    }
    j
}

// ---------------------------------------------------------------------------
// Syntax tree nodes
// ---------------------------------------------------------------------------

/// The view of an optional token.
pub open spec fn opt_text(o: Option<String>) -> Option<Seq<char>> {
    match o {
        Some(t) => Some(t@),
        None => None,
    }
}

/// An `object` node of the syntax tree: one parsed command body.
pub struct ObjectNode {
    /// The object id token.
    pub oid: String,
    /// The trimmed attribute run, when one stands between the oid and
    /// the first marker.
    pub attributes: Option<String>,
    /// The reference declared by a `new` part, when one is present.
    pub new_ref: Option<String>,
    /// The reference applied by an `application` part, when one is
    /// present.
    pub application_ref: Option<String>,
}

impl View for ObjectNode {
    type V = ObjectView;

    open spec fn view(&self) -> ObjectView {
        ObjectView {
            oid: self.oid@,
            attributes: opt_text(self.attributes),
            new_ref: opt_text(self.new_ref),
            application_ref: opt_text(self.application_ref),
        }
    }
}

// ---------------------------------------------------------------------------
// Production parsers
// ---------------------------------------------------------------------------

/// Parses `ws* reference ws*` starting at `from`, giving the reference
/// text and the position after its trailing whitespace.
fn parse_reference_part(s: &str, from: usize, n: usize) -> (r: Option<(String, usize)>)
    requires
        from <= n == s@.len(),
    ensures
        r is Some <==> parse_reference_at(s@, from as int) is Some,
        r matches Some((t, p)) ==> parse_reference_at(s@, from as int) matches Some((st, sp))
            && t@ == st && p as int == sp && p <= n,
{
    let b = scan_ws(s, from, n);
    if b < n {
        let c = s.get_char(b);
        if 'a' <= c && c <= 'z' {
            let e = scan_reference(s, b, n);
            proof {
                assert(is_lower(s@[b as int]));
                assert(reference_end(s@, b as int) == reference_end(s@, b as int + 1));
                lemma_reference_end(s@, b as int + 1);
            }
            let t = s.substring_char(b, e).to_owned();
            let p = scan_ws(s, e, n);
            Some((t, p))
        } else {
            None
        }
    } else {
        None
    }
}

/// Parses an `object` from `from` to the end of the text.
fn parse_object_part(s: &str, from: usize, n: usize) -> (r: Option<ObjectNode>)
    requires
        from <= n == s@.len(),
    ensures
        r is Some <==> parse_object_at(s@, from as int) is Some,
        r matches Some(o) ==> parse_object_at(s@, from as int) matches Some(ov) && o@ == ov,
{
    if from == n {
        return None;
    }
    let c0 = s.get_char(from);
    if !letter_char(c0) {
        return None;
    }
    if scan_newline(s, from, n) < n {
        // an object never spans lines
        proof {
            lemma_newline_pos(s@, from as int);
        }
        return None;
    }
    proof {
        lemma_newline_pos(s@, from as int);
        assert(forall|j: int| from <= j < s@.len() ==> #[trigger] s@[j] != '\n');
    }
    let e = scan_ident(s, from, n);
    proof {
        assert(is_ident_char(s@[from as int]));
        assert(ident_end(s@, from as int) == ident_end(s@, from as int + 1));
        lemma_ident_end(s@, from as int + 1);
    }
    let oid = s.substring_char(from, e).to_owned();
    let m = scan_marker(s, e, n);
    let lo = scan_ws(s, e, n);
    let hi = scan_rtrim(s, m);
    let attributes: Option<String> = if lo < m {
        proof {
            lemma_ws_end(s@, e as int);
            lemma_rtrim_end(s@, m as int);
            lemma_marker_pos(s@, e as int);
            // the character at `lo` is not whitespace, so the right trim
            // stops behind it
            assert(lo < s@.len());
            assert(!is_ws(s@[lo as int]));
            if rtrim_end(s@, m as int) <= lo as int {
                assert(is_ws(s@[lo as int]));
            }
            assert((lo as int) < rtrim_end(s@, m as int));
        }
        Some(s.substring_char(lo, hi).to_owned())
    } else {
        None
    };
    // the tail: nothing, `> reference`, or `-> reference`, the latter two
    // in that order
    if m == n {
        return Some(ObjectNode { oid, attributes, new_ref: None, application_ref: None });
    }
    proof {
        lemma_marker_pos(s@, e as int);
        assert(is_marker_at(s@, m as int));
    }
    let cm = s.get_char(m);
    if cm == '>' {
        match parse_reference_part(s, m + 1, n) {
            Some((t1, p)) => {
                if p == n {
                    Some(ObjectNode { oid, attributes, new_ref: Some(t1), application_ref: None })
                } else {
                    let cp = s.get_char(p);
                    if cp == '-' && p + 1 < n && s.get_char(p + 1) == '>' {
                        match parse_reference_part(s, p + 2, n) {
                            Some((t2, q)) => {
                                if q == n {
                                    Some(
                                        ObjectNode {
                                            oid,
                                            attributes,
                                            new_ref: Some(t1),
                                            application_ref: Some(t2),
                                        },
                                    )
                                } else {
                                    None
                                }
                            },
                            None => None,
                        }
                    } else {
                        None
                    }
                }
            },
            None => None,
        }
    } else {
        // the marker is `->`
        match parse_reference_part(s, m + 2, n) {
            Some((t, q)) => {
                if q == n {
                    Some(ObjectNode { oid, attributes, new_ref: None, application_ref: Some(t) })
                } else {
                    None
                }
            },
            None => None,
        }
    }
}

/// Parses a whole `me` line: `ws* "me:" ws* login ws*`, giving the login
/// token.
fn parse_me_part(s: &str) -> (r: Option<String>)
    ensures
        r is Some <==> parse_me(s@) is Some,
        r matches Some(l) ==> parse_me(s@) matches Some(sl) && l@ == sl,
{
    let n = s.unicode_len();
    let a = scan_ws(s, 0, n);
    if n - a < 3 {
        return None;
    }
    if !(s.get_char(a) == 'm' && s.get_char(a + 1) == 'e' && s.get_char(a + 2) == ':') {
        return None;
    }
    let b = scan_ws(s, a + 3, n);
    if b == n {
        return None;
    }
    if s.get_char(b) != '@' {
        return None;
    }
    if b + 1 == n {
        return None;
    }
    if !letter_char(s.get_char(b + 1)) {
        return None;
    }
    let e = scan_ident(s, b + 1, n);
    if scan_ws(s, e, n) != n {
        return None;
    }
    Some(s.substring_char(b, e).to_owned())
}

/// One classified line of a program.
pub enum LineNode {
    /// Whitespace only.
    Blank,
    /// A comment line, from its `#` to the end of the line.
    Comment(String),
    /// The `me` line, as its login token.
    Me(String),
    /// A command line, as its object.
    Command(ObjectNode),
    /// A line that matches no production.
    Invalid,
}

impl View for LineNode {
    type V = LineKind;

    open spec fn view(&self) -> LineKind {
        match self {
            LineNode::Blank => LineKind::Blank,
            LineNode::Comment(t) => LineKind::Comment(t@),
            LineNode::Me(l) => LineKind::Me(l@),
            LineNode::Command(o) => LineKind::Command(o@),
            LineNode::Invalid => LineKind::Invalid,
        }
    }
}

/// Classifies one line of a program.
fn classify_line(s: &str) -> (k: LineNode)
    ensures
        k@ == line_kind(s@),
{
    let n = s.unicode_len();
    let a = scan_ws(s, 0, n);
    if a >= n {
        LineNode::Blank
    } else {
        let c = s.get_char(a);
        if c == '#' {
            LineNode::Comment(s.substring_char(a, n).to_owned())
        } else if c == '+' {
            match parse_object_part(s, a + 1, n) {
                Some(o) => LineNode::Command(o),
                None => LineNode::Invalid,
            }
        } else {
            match parse_me_part(s) {
                Some(l) => LineNode::Me(l),
                None => LineNode::Invalid,
            }
        }
    }
}

/// One kept item of a program's syntax tree: a command or a comment.
pub enum ItemNode {
    Command(ObjectNode),
    Comment(String),
}

impl View for ItemNode {
    type V = ItemView;

    open spec fn view(&self) -> ItemView {
        match self {
            ItemNode::Command(o) => ItemView::Command(o@),
            ItemNode::Comment(t) => ItemView::Comment(t@),
        }
    }
}

/// The view of a sequence of items.
pub open spec fn items_view(s: Seq<ItemNode>) -> Seq<ItemView> {
    Seq::new(s.len(), |i: int| s[i]@)
}

/// A `program` node of the syntax tree: the login token of the `me` line,
/// and the command and comment productions of the remaining lines, in
/// source order.
pub struct ProgramNode {
    /// The login token, `@` included.
    pub login: String,
    /// The commands and comments, in source order.
    pub items: Vec<ItemNode>,
}

impl View for ProgramNode {
    type V = ProgramView;

    open spec fn view(&self) -> ProgramView {
        ProgramView { login: self.login@, items: items_view(self.items@) }
    }
}

/// Parses a whole program text, line by line.
fn parse_program_part(s: &str) -> (r: Option<ProgramNode>)
    ensures
        r is Some <==> parse_program(s@) is Some,
        r matches Some(p) ==> parse_program(s@) matches Some(pv) && p@ == pv,
{
    let n = s.unicode_len();
    let ghost ls = spec_lines(s@);
    let ghost ks = line_kinds(s@);
    let mut start: usize = 0;
    let mut done: bool = false;
    let mut login: Option<String> = None;
    let mut items: Vec<ItemNode> = Vec::new();
    let ghost mut li: int = 0;
    let ghost mut me_idx: int = 0;

    while !done
        invariant
            n == s@.len(),
            ls == spec_lines(s@),
            ks == line_kinds(s@),
            ks.len() == ls.len(),
            0 <= li <= ks.len(),
            !done ==> start <= n,
            !done ==> lines_from(s@, start as int) == ls.skip(li),
            done ==> li == ks.len(),
            forall|i: int| 0 <= i < li ==> kind_wf(#[trigger] ks[i]),
            login matches Some(l) ==> 0 <= me_idx < li && ks[me_idx] is Me && l@ == ks[me_idx]->Me_0,
            login is None ==> forall|i: int| 0 <= i < li ==> !(#[trigger] ks[i] is Me),
            login is Some ==> forall|i: int| 0 <= i < li && #[trigger] ks[i] is Me ==> i == me_idx,
            forall|j: int|
                0 <= j < li && #[trigger] ks[j] is Command ==> (login is Some && me_idx < j),
            items_view(items@) == program_items(ks.take(li)),
        decreases ks.len() - li,
    {
        let p = scan_newline(s, start, n);
        let line = s.substring_char(start, p);
        proof {
            lemma_newline_pos(s@, start as int);
            if (p as int) < n as int {
                assert(lines_from(s@, start as int) == seq![
                    s@.subrange(start as int, p as int),
                ] + lines_from(s@, p as int + 1));
            } else {
                assert(lines_from(s@, start as int) == seq![
                    s@.subrange(start as int, s@.len() as int),
                ]);
            }
            assert(ls.skip(li)[0] == line@);
            assert(ls[li] == line@);
            assert(ks[li] == line_kind(line@));
        }
        let k = classify_line(line);
        let ghost kk = ks[li];
        match k {
            LineNode::Blank => {
                proof {
                    assert(ks.take(li + 1).drop_last() =~= ks.take(li));
                    assert(ks.take(li + 1).last() == kk);
                    assert(items_view(items@) == program_items(ks.take(li + 1)));
                }
            },
            LineNode::Comment(t) => {
                proof {
                    assert(ks.take(li + 1).drop_last() =~= ks.take(li));
                    assert(ks.take(li + 1).last() == kk);
                }
                let ghost old_items = items@;
                items.push(ItemNode::Comment(t));
                proof {
                    assert(items_view(old_items.push(ItemNode::Comment(t))) =~= items_view(
                        old_items,
                    ).push(ItemView::Comment(t@)));
                    assert(items_view(items@) == program_items(ks.take(li + 1)));
                }
            },
            LineNode::Me(l) => {
                if login.is_some() {
                    // a second `me` line: the program is malformed
                    proof {
                        assert(ks[me_idx] is Me && ks[li] is Me && me_idx != li);
                        assert(!program_wf(ks));
                    }
                    return None;
                }
                login = Some(l);
                proof {
                    me_idx = li;
                    assert(ks.take(li + 1).drop_last() =~= ks.take(li));
                    assert(ks.take(li + 1).last() == kk);
                    assert(items_view(items@) == program_items(ks.take(li + 1)));
                }
            },
            LineNode::Command(o) => {
                if login.is_none() {
                    // a command before the `me` line: the program is
                    // malformed
                    proof {
                        if program_wf(ks) {
                            let i = choose|i: int|
                                0 <= i < ks.len() && #[trigger] ks[i] is Me;
                            assert(ks[i] is Me && ks[li] is Command);
                            assert(i > li);
                            assert(false);
                        }
                    }
                    return None;
                }
                proof {
                    assert(ks.take(li + 1).drop_last() =~= ks.take(li));
                    assert(ks.take(li + 1).last() == kk);
                }
                let ghost old_items = items@;
                items.push(ItemNode::Command(o));
                proof {
                    assert(items_view(items@) =~= items_view(old_items).push(
                        items@[old_items.len() as int]@,
                    ));
                    assert(items_view(items@) == program_items(ks.take(li + 1)));
                }
            },
            LineNode::Invalid => {
                proof {
                    assert(!kind_wf(ks[li]));
                    assert(!program_wf(ks));
                }
                return None;
            },
        }
        proof {
            li = li + 1;
        }
        if p == n {
            done = true;
            proof {
                assert(ls.skip(li - 1).len() == 1);
                assert(li == ks.len());
            }
        } else {
            start = p + 1;
            proof {
                assert(ls.skip(li - 1).skip(1) =~= ls.skip(li));
                assert(lines_from(s@, start as int) == ls.skip(li));
            }
        }
    }
    match login {
        Some(l) => {
            proof {
                assert(program_wf(ks)) by {
                    assert(0 <= me_idx < ks.len() && ks[me_idx] is Me);
                };
                let ci = choose|i: int| 0 <= i < ks.len() && #[trigger] ks[i] is Me;
                assert(ci == me_idx);
                assert(program_login(ks) == l@);
                assert(ks.take(li) =~= ks);
            }
            let p = ProgramNode { login: l, items };
            proof {
                assert(p@ =~= parse_program(s@)->Some_0);
            }
            Some(p)
        },
        None => {
            proof {
                assert(!program_wf(ks));
            }
            None
        },
    }
}

// ---------------------------------------------------------------------------
// Token rules, matched against a whole input
// ---------------------------------------------------------------------------

/// Whether the whole text is one `login` token.
fn match_login(s: &str) -> (r: bool)
    ensures
        r == is_login(s@),
{
    let n = s.unicode_len();
    if n >= 2 && s.get_char(0) == '@' && letter_char(s.get_char(1)) && scan_ident(s, 1, n) == n {
        proof {
            lemma_ident_end(s@, 1);
            assert forall|j: int| 0 <= j < s@.skip(1).len() implies is_ident_char(
                #[trigger] s@.skip(1)[j],
            ) by {
                assert(s@.skip(1)[j] == s@[j + 1]);
            }
            assert(is_ident(s@.skip(1)));
        }
        true
    } else {
        proof {
            if is_login(s@) {
                assert(is_ident(s@.skip(1)));
                assert(s@.skip(1).len() == s@.len() - 1);
                assert(s@.skip(1)[0] == s@[1]);
                assert(s@.len() >= 2);
                assert(is_letter(s@[1]));
                lemma_ident_end(s@, 1);
                let e = ident_end(s@, 1);
                if e < s@.len() {
                    assert(s@.skip(1)[e - 1] == s@[e]);
                    assert(is_ident_char(s@[e]));
                    assert(false);
                }
            }
        }
        false
    }
}

/// Whether the whole text is one `reference` token.
fn match_reference(s: &str) -> (r: bool)
    ensures
        r == is_reference(s@),
{
    let n = s.unicode_len();
    if n >= 1 && {
        let c = s.get_char(0);
        'a' <= c && c <= 'z'
    } && scan_reference(s, 0, n) == n {
        proof {
            lemma_reference_end(s@, 0);
        }
        true
    } else {
        proof {
            if is_reference(s@) {
                lemma_reference_end(s@, 0);
                let e = reference_end(s@, 0);
                if e < s@.len() {
                    assert(is_reference_char(s@[e]));
                    assert(false);
                }
            }
        }
        false
    }
}

/// Whether the whole text is one `oid` token, that is, an identifier.
fn match_oid(s: &str) -> (r: bool)
    ensures
        r == is_ident(s@),
{
    let n = s.unicode_len();
    if n >= 1 && letter_char(s.get_char(0)) && scan_ident(s, 0, n) == n {
        proof {
            lemma_ident_end(s@, 0);
        }
        true
    } else {
        proof {
            if is_ident(s@) {
                lemma_ident_end(s@, 0);
                let e = ident_end(s@, 0);
                if e < s@.len() {
                    assert(is_ident_char(s@[e]));
                    assert(false);
                }
            }
        }
        false
    }
}

/// Whether the whole text is one `comment`.
fn match_comment(s: &str) -> (r: bool)
    ensures
        r == is_comment(s@),
{
    let n = s.unicode_len();
    if n >= 1 && s.get_char(0) == '#' && scan_newline(s, 0, n) == n {
        proof {
            lemma_newline_pos(s@, 0);
        }
        true
    } else {
        proof {
            if is_comment(s@) {
                lemma_newline_pos(s@, 0);
                let e = newline_pos(s@, 0);
                if e < s@.len() {
                    assert(s@[e] == '\n');
                    assert(false);
                }
            }
        }
        false
    }
}

/// Whether the whole text is one attribute run on its own.
fn match_attributes(s: &str) -> (r: bool)
    ensures
        r == is_attributes(s@),
{
    let n = s.unicode_len();
    if n >= 1 && !ws_char(s.get_char(0)) && !ws_char(s.get_char(n - 1)) && scan_marker(s, 0, n)
        == n && scan_newline(s, 0, n) == n {
        proof {
            lemma_marker_pos(s@, 0);
            lemma_newline_pos(s@, 0);
        }
        true
    } else {
        proof {
            if is_attributes(s@) {
                lemma_marker_pos(s@, 0);
                lemma_newline_pos(s@, 0);
                let m = marker_pos(s@, 0);
                if m < s@.len() {
                    assert(is_marker_at(s@, m));
                    assert(false);
                }
                let e = newline_pos(s@, 0);
                if e < s@.len() {
                    assert(s@[e] == '\n');
                    assert(false);
                }
            }
        }
        false
    }
}

/// Parses the whole text as one `new` production, giving the reference.
fn match_new(s: &str) -> (r: Option<String>)
    ensures
        r is Some <==> parse_new(s@) is Some,
        r matches Some(t) ==> parse_new(s@) matches Some(st) && t@ == st,
{
    let n = s.unicode_len();
    if n >= 1 && s.get_char(0) == '>' {
        match parse_reference_part(s, 1, n) {
            Some((t, p)) => if p == n {
                Some(t)
            } else {
                None
            },
            None => None,
        }
    } else {
        None
    }
}

/// Parses the whole text as one `application` production, giving the
/// reference.
fn match_application(s: &str) -> (r: Option<String>)
    ensures
        r is Some <==> parse_application(s@) is Some,
        r matches Some(t) ==> parse_application(s@) matches Some(st) && t@ == st,
{
    let n = s.unicode_len();
    if n >= 2 && s.get_char(0) == '-' && s.get_char(1) == '>' {
        match parse_reference_part(s, 2, n) {
            Some((t, p)) => if p == n {
                Some(t)
            } else {
                None
            },
            None => None,
        }
    } else {
        None
    }
}

// ---------------------------------------------------------------------------
// The parser
// ---------------------------------------------------------------------------

/// One grammar rule.
#[derive(Clone, Copy, PartialEq, Eq, Structural, Debug)]
pub enum Rule {
    Program,
    Me,
    Login,
    Command,
    Object,
    Oid,
    Attributes,
    New,
    Application,
    Reference,
    Comment,
}

/// The syntax tree node of one matched rule.
pub enum Node {
    /// A whole program.
    Program(ProgramNode),
    /// A `me` line, as its login token.
    Me(String),
    /// A login token.
    Login(String),
    /// A command, as its object.
    Command(ObjectNode),
    /// An object.
    Object(ObjectNode),
    /// An object id token.
    Oid(String),
    /// An attribute run.
    Attributes(String),
    /// A `new` part, as its reference.
    New(String),
    /// An `application` part, as its reference.
    Application(String),
    /// A reference token.
    Reference(String),
    /// A comment.
    Comment(String),
}

/// The view of a syntax tree node.
pub enum NodeView {
    Program(ProgramView),
    Me(Seq<char>),
    Login(Seq<char>),
    Command(ObjectView),
    Object(ObjectView),
    Oid(Seq<char>),
    Attributes(Seq<char>),
    New(Seq<char>),
    Application(Seq<char>),
    Reference(Seq<char>),
    Comment(Seq<char>),
}

impl View for Node {
    type V = NodeView;

    open spec fn view(&self) -> NodeView {
        match self {
            Node::Program(p) => NodeView::Program(p@),
            Node::Me(l) => NodeView::Me(l@),
            Node::Login(l) => NodeView::Login(l@),
            Node::Command(o) => NodeView::Command(o@),
            Node::Object(o) => NodeView::Object(o@),
            Node::Oid(t) => NodeView::Oid(t@),
            Node::Attributes(t) => NodeView::Attributes(t@),
            Node::New(t) => NodeView::New(t@),
            Node::Application(t) => NodeView::Application(t@),
            Node::Reference(t) => NodeView::Reference(t@),
            Node::Comment(t) => NodeView::Comment(t@),
        }
    }
}

/// Whether a text matches a rule in full.
pub open spec fn rule_matches(rule: Rule, s: Seq<char>) -> bool {
    match rule {
        Rule::Program => parse_program(s) is Some,
        Rule::Me => parse_me(s) is Some,
        Rule::Login => is_login(s),
        Rule::Command => parse_command(s) is Some,
        Rule::Object => parse_object_at(s, 0) is Some,
        Rule::Oid => is_ident(s),
        Rule::Attributes => is_attributes(s),
        Rule::New => parse_new(s) is Some,
        Rule::Application => parse_application(s) is Some,
        Rule::Reference => is_reference(s),
        Rule::Comment => is_comment(s),
    }
}

/// The node that a matching text parses to.
pub open spec fn rule_node(rule: Rule, s: Seq<char>) -> NodeView {
    match rule {
        Rule::Program => NodeView::Program(parse_program(s)->Some_0),
        Rule::Me => NodeView::Me(parse_me(s)->Some_0),
        Rule::Login => NodeView::Login(s),
        Rule::Command => NodeView::Command(parse_command(s)->Some_0),
        Rule::Object => NodeView::Object(parse_object_at(s, 0)->Some_0),
        Rule::Oid => NodeView::Oid(s),
        Rule::Attributes => NodeView::Attributes(s),
        Rule::New => NodeView::New(parse_new(s)->Some_0),
        Rule::Application => NodeView::Application(parse_application(s)->Some_0),
        Rule::Reference => NodeView::Reference(s),
        Rule::Comment => NodeView::Comment(s),
    }
}

/// A successful parse: the rule's node, and the matched text, which is
/// the whole input.
pub struct Parsed {
    /// The syntax tree node.
    pub node: Node,
    /// The matched text.
    pub text: String,
}

impl Parsed {
    /// The matched text.
    pub fn as_str(&self) -> (r: &str)
        ensures
            r@ == self.text@,
    {
        self.text.as_str()
    }
}

/// A failed parse: the rule that did not match, and the rejected input.
#[derive(Debug)]
pub struct SyntaxError {
    /// The rule the input was matched against.
    pub rule: Rule,
    /// The rejected input.
    pub fragment: String,
}

/// The FSL syntax parser.
pub struct FslParser {}

impl FslParser {
    /// Matches `input` against `rule`, in full: the result is `Ok` exactly
    /// when the whole input is one text of that rule, and then holds the
    /// rule's syntax tree node and the matched text.
    pub fn parse(rule: Rule, input: &str) -> (r: Result<Parsed, SyntaxError>)
        ensures
            r is Ok <==> rule_matches(rule, input@),
            r matches Ok(p) ==> p.node@ == rule_node(rule, input@) && p.text@ == input@,
            r matches Err(e) ==> e.rule == rule && e.fragment@ == input@,
    {
        let node: Option<Node> = match rule {
            Rule::Program => match parse_program_part(input) {
                Some(p) => Some(Node::Program(p)),
                None => None,
            },
            Rule::Me => match parse_me_part(input) {
                Some(l) => Some(Node::Me(l)),
                None => None,
            },
            Rule::Login => if match_login(input) {
                Some(Node::Login(input.to_owned()))
            } else {
                None
            },
            Rule::Command => {
                let n = input.unicode_len();
                if n >= 1 && input.get_char(0) == '+' {
                    match parse_object_part(input, 1, n) {
                        Some(o) => Some(Node::Command(o)),
                        None => None,
                    }
                } else {
                    None
                }
            },
            Rule::Object => {
                let n = input.unicode_len();
                match parse_object_part(input, 0, n) {
                    Some(o) => Some(Node::Object(o)),
                    None => None,
                }
            },
            Rule::Oid => if match_oid(input) {
                Some(Node::Oid(input.to_owned()))
            } else {
                None
            },
            Rule::Attributes => if match_attributes(input) {
                Some(Node::Attributes(input.to_owned()))
            } else {
                None
            },
            Rule::New => match match_new(input) {
                Some(t) => Some(Node::New(t)),
                None => None,
            },
            Rule::Application => match match_application(input) {
                Some(t) => Some(Node::Application(t)),
                None => None,
            },
            Rule::Reference => if match_reference(input) {
                Some(Node::Reference(input.to_owned()))
            } else {
                None
            },
            Rule::Comment => if match_comment(input) {
                Some(Node::Comment(input.to_owned()))
            } else {
                None
            },
        };
        match node {
            Some(node) => Ok(Parsed { node, text: input.to_owned() }),
            None => Err(SyntaxError { rule, fragment: input.to_owned() }),
        }
    }
}

} // verus!
