//! The FSL grammar, as mathematical definitions over sequences of characters.
//!
//! FSL is line-oriented.  A program is a sequence of lines separated by
//! newline characters:
//!
//! ```text
//! program     := line ('\n' line)*
//! line        := blank | comment | me | command, each padded by ws
//! me          := "me:" ws* login
//! login       := '@' ident
//! ident       := letter (letter | digit)*
//! command     := '+' object
//! object      := oid [attributes] [new] [application]
//! oid         := ident
//! attributes  := the run of characters between the oid and the first
//!                '>' or "->" marker (or the end of the line), trimmed
//! new         := '>' ws* reference
//! application := "->" ws* reference
//! reference   := lower (lower | digit)*
//! comment     := '#' any characters up to the end of the line
//! blank       := ws* only
//! ```
//!
//! Whitespace inside a line is insignificant except as a separator.  A
//! program is well formed when every line is well formed, exactly one line
//! is the `me` line, and every command line comes after it.  Comment and
//! blank lines may stand anywhere, so a program may open with a comment
//! block (for instance a license header) before its `me` line.
//!
//! A login identifier starts with a letter: `@jeff` and `@x` are valid,
//! while a bare `@`, `@_f` and `@.` are not.  The `->` marker is matched
//! before `>`, so the two cannot be confused; an attribute run never
//! contains either marker.

use vstd::prelude::*;

verus! {

// ---------------------------------------------------------------------------
// Character classes
// ---------------------------------------------------------------------------

/// Insignificant whitespace inside a line: space or tab.
pub open spec fn is_ws(c: char) -> bool {
    c == ' ' || c == '\t'
}

/// An ASCII lowercase letter.
pub open spec fn is_lower(c: char) -> bool {
    'a' <= c && c <= 'z'
}

/// An ASCII uppercase letter.
pub open spec fn is_upper(c: char) -> bool {
    'A' <= c && c <= 'Z'
}

/// An ASCII decimal digit.
pub open spec fn is_digit(c: char) -> bool {
    '0' <= c && c <= '9'
}

/// An ASCII letter.
pub open spec fn is_letter(c: char) -> bool {
    is_lower(c) || is_upper(c)
}

/// A character that may stand in an identifier after its first letter.
pub open spec fn is_ident_char(c: char) -> bool {
    is_letter(c) || is_digit(c)
}

/// A character that may stand in a reference after its first letter.
pub open spec fn is_reference_char(c: char) -> bool {
    is_lower(c) || is_digit(c)
}

// ---------------------------------------------------------------------------
// Token shapes
// ---------------------------------------------------------------------------

/// `ident := letter (letter | digit)*`
pub open spec fn is_ident(s: Seq<char>) -> bool {
    &&& s.len() > 0
    &&& is_letter(s[0])
    &&& forall|i: int| 0 <= i < s.len() ==> is_ident_char(#[trigger] s[i])
}

/// `login := '@' ident`
pub open spec fn is_login(s: Seq<char>) -> bool {
    s.len() >= 1 && s[0] == '@' && is_ident(s.skip(1))
}

/// `reference := lower (lower | digit)*`, that is, a name matching
/// `^[a-z][a-z0-9]*$`.
pub open spec fn is_reference(s: Seq<char>) -> bool {
    &&& s.len() > 0
    &&& is_lower(s[0])
    &&& forall|i: int| 0 <= i < s.len() ==> is_reference_char(#[trigger] s[i])
}

/// `comment := '#' any characters up to the end of the line`
pub open spec fn is_comment(s: Seq<char>) -> bool {
    &&& s.len() >= 1
    &&& s[0] == '#'
    &&& forall|i: int| 0 <= i < s.len() ==> #[trigger] s[i] != '\n'
}

/// A blank line: whitespace only.
pub open spec fn is_blank(s: Seq<char>) -> bool {
    forall|i: int| 0 <= i < s.len() ==> is_ws(#[trigger] s[i])
}

// ---------------------------------------------------------------------------
// Scans
//
// The grammar is deterministic: every token is the longest run of its
// character class.  The scans below give the end of each such run, and the
// parsers further down are written in terms of them.
// ---------------------------------------------------------------------------

/// The first position at or after `i` holding a character that is not
/// whitespace, or `s.len()` when only whitespace follows.
pub open spec fn ws_end(s: Seq<char>, i: int) -> int
    decreases s.len() - i,
{
    if i < 0 || i >= s.len() {
        i
    } else if is_ws(s[i]) {
        ws_end(s, i + 1)
    } else {
        i
    }
}

/// The end of the run of identifier characters that starts at `i`.
pub open spec fn ident_end(s: Seq<char>, i: int) -> int
    decreases s.len() - i,
{
    if i < 0 || i >= s.len() {
        i
    } else if is_ident_char(s[i]) {
        ident_end(s, i + 1)
    } else {
        i
    }
}

/// The end of the run of reference characters that starts at `i`.
pub open spec fn reference_end(s: Seq<char>, i: int) -> int
    decreases s.len() - i,
{
    if i < 0 || i >= s.len() {
        i
    } else if is_reference_char(s[i]) {
        reference_end(s, i + 1)
    } else {
        i
    }
}

/// Whether position `j` starts a `new` or `application` marker: a `>`, or
/// a `-` directly followed by `>`.
pub open spec fn is_marker_at(s: Seq<char>, j: int) -> bool {
    0 <= j < s.len() && (s[j] == '>' || (s[j] == '-' && j + 1 < s.len() && s[j + 1] == '>'))
}

/// The first position at or after `i` that starts a marker, or `s.len()`
/// when no marker follows.
pub open spec fn marker_pos(s: Seq<char>, i: int) -> int
    decreases s.len() - i,
{
    if i < 0 || i >= s.len() {
        i
    } else if is_marker_at(s, i) {
        i
    } else {
        marker_pos(s, i + 1)
    }
}

/// The position after the last character at or after position `j`, looking
/// backwards, that is not whitespace: the right end for trimming `s` up to
/// `j`.
pub open spec fn rtrim_end(s: Seq<char>, j: int) -> int
    decreases j,
{
    if j <= 0 || j > s.len() {
        j
    } else if is_ws(s[j - 1]) {
        rtrim_end(s, j - 1)
    } else {
        j
    }
}

// ---------------------------------------------------------------------------
// What the scans give
// ---------------------------------------------------------------------------

/// Where `ws_end` stops: at or after `i`, within the text, behind nothing
/// but whitespace, and at the end or at a character that is none.
pub proof fn lemma_ws_end(s: Seq<char>, i: int)
    requires
        0 <= i <= s.len(),
    ensures
        i <= ws_end(s, i) <= s.len(),
        forall|j: int| i <= j < ws_end(s, i) ==> is_ws(#[trigger] s[j]),
        ws_end(s, i) < s.len() ==> !is_ws(s[ws_end(s, i)]),
    decreases s.len() - i,
{
    if i < s.len() && is_ws(s[i]) {
        lemma_ws_end(s, i + 1);
    }
}

/// Where `ident_end` stops, in the same way.
pub proof fn lemma_ident_end(s: Seq<char>, i: int)
    requires
        0 <= i <= s.len(),
    ensures
        i <= ident_end(s, i) <= s.len(),
        forall|j: int| i <= j < ident_end(s, i) ==> is_ident_char(#[trigger] s[j]),
        ident_end(s, i) < s.len() ==> !is_ident_char(s[ident_end(s, i)]),
    decreases s.len() - i,
{
    if i < s.len() && is_ident_char(s[i]) {
        lemma_ident_end(s, i + 1);
    }
}

/// Where `reference_end` stops, in the same way.
pub proof fn lemma_reference_end(s: Seq<char>, i: int)
    requires
        0 <= i <= s.len(),
    ensures
        i <= reference_end(s, i) <= s.len(),
        forall|j: int| i <= j < reference_end(s, i) ==> is_reference_char(#[trigger] s[j]),
        reference_end(s, i) < s.len() ==> !is_reference_char(s[reference_end(s, i)]),
    decreases s.len() - i,
{
    if i < s.len() && is_reference_char(s[i]) {
        lemma_reference_end(s, i + 1);
    }
}

/// Where `marker_pos` stops: nothing before it starts a marker, and it
/// stands at a marker or at the end.
pub proof fn lemma_marker_pos(s: Seq<char>, i: int)
    requires
        0 <= i <= s.len(),
    ensures
        i <= marker_pos(s, i) <= s.len(),
        forall|j: int| i <= j < marker_pos(s, i) ==> !is_marker_at(s, j),
        marker_pos(s, i) < s.len() ==> is_marker_at(s, marker_pos(s, i)),
    decreases s.len() - i,
{
    if i < s.len() && !is_marker_at(s, i) {
        lemma_marker_pos(s, i + 1);
    }
}

/// Where `newline_pos` stops: nothing before it is a newline, and it
/// stands at one or at the end.
pub proof fn lemma_newline_pos(s: Seq<char>, i: int)
    requires
        0 <= i <= s.len(),
    ensures
        i <= newline_pos(s, i) <= s.len(),
        forall|j: int| i <= j < newline_pos(s, i) ==> #[trigger] s[j] != '\n',
        newline_pos(s, i) < s.len() ==> s[newline_pos(s, i)] == '\n',
    decreases s.len() - i,
{
    if i < s.len() && s[i] != '\n' {
        lemma_newline_pos(s, i + 1);
    }
}

/// Where `rtrim_end` stops: at or before `j`, with nothing but whitespace
/// behind it up to `j`, and right after a character that is none, or at
/// the very start.
pub proof fn lemma_rtrim_end(s: Seq<char>, j: int)
    requires
        0 <= j <= s.len(),
    ensures
        0 <= rtrim_end(s, j) <= j,
        forall|k: int| rtrim_end(s, j) <= k < j ==> is_ws(#[trigger] s[k]),
        rtrim_end(s, j) > 0 ==> !is_ws(s[rtrim_end(s, j) - 1]),
    decreases j,
{
    if j > 0 && is_ws(s[j - 1]) {
        lemma_rtrim_end(s, j - 1);
    }
}

// ---------------------------------------------------------------------------
// Productions
// ---------------------------------------------------------------------------

/// What one `object` production holds: the object id, and the optional
/// attribute, `new` reference and `application` reference tokens.
#[verifier::ext_equal]
pub struct ObjectView {
    pub oid: Seq<char>,
    pub attributes: Option<Seq<char>>,
    pub new_ref: Option<Seq<char>>,
    pub application_ref: Option<Seq<char>>,
}

/// Parses `ws* reference ws*` starting at `i`, giving the reference text
/// and the position after its trailing whitespace.
pub open spec fn parse_reference_at(s: Seq<char>, i: int) -> Option<(Seq<char>, int)> {
    let b = ws_end(s, i);
    let e = reference_end(s, b);
    if b < s.len() && is_lower(s[b]) && e > b {
        Some((s.subrange(b, e), ws_end(s, e)))
    } else {
        None
    }
}

/// Parses the tail of an `object` after its `new` and `application` parts
/// begin: at `m` stands either the end of the text, a `new` marker or an
/// `application` marker.  Gives the optional `new` and `application`
/// references, or `None` when the tail is malformed.
pub open spec fn parse_object_tail(s: Seq<char>, m: int) -> Option<(Option<Seq<char>>, Option<
    Seq<char>,
>)> {
    if m == s.len() {
        Some((None, None))
    } else if s[m] == '>' {
        match parse_reference_at(s, m + 1) {
            Some((r1, p)) => {
                if p == s.len() {
                    Some((Some(r1), None))
                } else if s[p] == '-' && p + 1 < s.len() && s[p + 1] == '>' {
                    match parse_reference_at(s, p + 2) {
                        Some((r2, q)) => if q == s.len() {
                            Some((Some(r1), Some(r2)))
                        } else {
                            None
                        },
                        None => None,
                    }
                } else {
                    None
                }
            },
            None => None,
        }
    } else if s[m] == '-' && m + 1 < s.len() && s[m + 1] == '>' {
        match parse_reference_at(s, m + 2) {
            Some((r, q)) => if q == s.len() {
                Some((None, Some(r)))
            } else {
                None
            },
            None => None,
        }
    } else {
        None
    }
}

/// Parses an `object` from position `i` to the end of `s`: an oid, then
/// everything up to the first marker as the trimmed attribute run, then
/// the optional `new` and `application` parts.  The text must hold no
/// newline: an object never spans lines.
pub open spec fn parse_object_at(s: Seq<char>, i: int) -> Option<ObjectView> {
    let e = ident_end(s, i);
    if 0 <= i && i < s.len() && is_letter(s[i]) && (forall|j: int|
        i <= j < s.len() ==> #[trigger] s[j] != '\n') {
        let m = marker_pos(s, e);
        let lo = ws_end(s, e);
        let hi = rtrim_end(s, m);
        let attributes = if lo < m {
            Some(s.subrange(lo, hi))
        } else {
            None
        };
        match parse_object_tail(s, m) {
            Some((new_ref, application_ref)) => Some(
                ObjectView { oid: s.subrange(i, e), attributes, new_ref, application_ref },
            ),
            None => None,
        }
    } else {
        None
    }
}

/// Parses a whole `command`: a `+` directly followed by an object.
pub open spec fn parse_command(s: Seq<char>) -> Option<ObjectView> {
    if s.len() >= 1 && s[0] == '+' {
        parse_object_at(s, 1)
    } else {
        None
    }
}

/// Parses a whole `me` line: `ws* "me:" ws* login ws*`.  Gives the login
/// token, `@` included.
pub open spec fn parse_me(s: Seq<char>) -> Option<Seq<char>> {
    let a = ws_end(s, 0);
    if a + 3 <= s.len() && s[a] == 'm' && s[a + 1] == 'e' && s[a + 2] == ':' {
        let b = ws_end(s, a + 3);
        let e = ident_end(s, b + 1);
        if b < s.len() && s[b] == '@' && b + 1 < s.len() && is_letter(s[b + 1]) && ws_end(s, e)
            == s.len() {
            Some(s.subrange(b, e))
        } else {
            None
        }
    } else {
        None
    }
}

/// Parses a whole `new` production: `'>' ws* reference`, with trailing
/// whitespace allowed.  Gives the reference.
pub open spec fn parse_new(s: Seq<char>) -> Option<Seq<char>> {
    if s.len() >= 1 && s[0] == '>' {
        match parse_reference_at(s, 1) {
            Some((r, q)) => if q == s.len() {
                Some(r)
            } else {
                None
            },
            None => None,
        }
    } else {
        None
    }
}

/// Parses a whole `application` production: `"->" ws* reference`, with
/// trailing whitespace allowed.  Gives the reference.
pub open spec fn parse_application(s: Seq<char>) -> Option<Seq<char>> {
    if s.len() >= 2 && s[0] == '-' && s[1] == '>' {
        match parse_reference_at(s, 2) {
            Some((r, q)) => if q == s.len() {
                Some(r)
            } else {
                None
            },
            None => None,
        }
    } else {
        None
    }
}

/// A whole attribute run on its own: free of markers and newlines,
/// nonempty, and already trimmed.
pub open spec fn is_attributes(s: Seq<char>) -> bool {
    &&& s.len() > 0
    &&& forall|i: int| 0 <= i < s.len() ==> !is_marker_at(s, i)
    &&& forall|i: int| 0 <= i < s.len() ==> #[trigger] s[i] != '\n'
    &&& !is_ws(s[0])
    &&& !is_ws(s[s.len() - 1])
}

/// What one line of a program is.
pub enum LineKind {
    /// Whitespace only.
    Blank,
    /// A comment line; the text runs from the `#` to the end of the line.
    Comment(Seq<char>),
    /// The `me` line; the payload is the login token.
    Me(Seq<char>),
    /// A command line; the payload is its object.
    Command(ObjectView),
    /// A line that matches no production.
    Invalid,
}

/// Classifies one line.  The first character after the leading whitespace
/// decides the production: `#` a comment, `+` a command, nothing a blank
/// line, and anything else must be the `me` line.
pub open spec fn line_kind(s: Seq<char>) -> LineKind {
    let a = ws_end(s, 0);
    if a >= s.len() {
        LineKind::Blank
    } else if s[a] == '#' {
        LineKind::Comment(s.subrange(a, s.len() as int))
    } else if s[a] == '+' {
        match parse_object_at(s, a + 1) {
            Some(o) => LineKind::Command(o),
            None => LineKind::Invalid,
        }
    } else {
        match parse_me(s) {
            Some(l) => LineKind::Me(l),
            None => LineKind::Invalid,
        }
    }
}

// ---------------------------------------------------------------------------
// Lines
// ---------------------------------------------------------------------------

/// The position of the first newline at or after `i`, or `s.len()` when
/// none follows.
pub open spec fn newline_pos(s: Seq<char>, i: int) -> int
    decreases s.len() - i,
{
    if i < 0 || i >= s.len() {
        i
    } else if s[i] == '\n' {
        i
    } else {
        newline_pos(s, i + 1)
    }
}

/// The lines of `s` from position `i` on: the newline characters separate
/// lines and belong to none.
pub open spec fn lines_from(s: Seq<char>, i: int) -> Seq<Seq<char>>
    decreases s.len() - i,
{
    let p = newline_pos(s, i);
    if 0 <= i <= p < s.len() {
        seq![s.subrange(i, p)] + lines_from(s, p + 1)
    } else {
        seq![s.subrange(i, s.len() as int)]
    }
}

/// Splits `s` into its lines.  The empty text is one empty line, and a
/// trailing newline ends the text with one.
pub open spec fn spec_lines(s: Seq<char>) -> Seq<Seq<char>> {
    lines_from(s, 0)
}

/// How many newlines stand at or after `i`.
pub open spec fn newline_tally(s: Seq<char>, i: int) -> int
    decreases s.len() - i,
{
    if i < 0 || i >= s.len() {
        0
    } else if s[i] == '\n' {
        1 + newline_tally(s, i + 1)
    } else {
        newline_tally(s, i + 1)
    }
}

/// Nothing but non-newlines between `i` and `j` leaves the tally alone.
pub proof fn lemma_tally_same(s: Seq<char>, i: int, j: int)
    requires
        0 <= i <= j <= s.len(),
        forall|k: int| i <= k < j ==> #[trigger] s[k] != '\n',
    ensures
        newline_tally(s, i) == newline_tally(s, j),
    decreases j - i,
{
    if i < j {
        lemma_tally_same(s, i + 1, j);
    }
}

/// The tally is bounded by the text that is left, and strictly when the
/// text does not end in a newline.
pub proof fn lemma_tally_bound(s: Seq<char>, i: int)
    requires
        0 <= i <= s.len(),
    ensures
        0 <= newline_tally(s, i) <= s.len() - i,
        i < s.len() && s[s.len() - 1] != '\n' ==> newline_tally(s, i) <= s.len() - i - 1,
    decreases s.len() - i,
{
    if i < s.len() {
        lemma_tally_bound(s, i + 1);
    }
}

/// A text has one line more than it has newlines.
pub proof fn lemma_lines_tally(s: Seq<char>, i: int)
    requires
        0 <= i <= s.len(),
    ensures
        lines_from(s, i).len() == newline_tally(s, i) + 1,
    decreases s.len() - i,
{
    lemma_newline_pos(s, i);
    let p = newline_pos(s, i);
    lemma_tally_same(s, i, p);
    if p < s.len() {
        lemma_lines_tally(s, p + 1);
    }
}

/// How many lines a program text has, counted as `str::lines` counts: the
/// newline is a terminator, so a trailing newline opens no further line,
/// and the empty text has none.
pub open spec fn line_count(s: Seq<char>) -> int {
    if s.len() == 0 {
        0
    } else if s[s.len() - 1] == '\n' {
        spec_lines(s).len() - 1
    } else {
        spec_lines(s).len() as int
    }
}

/// Whether a line is a command line by its first visible character: a
/// `+` after the leading whitespace.
pub open spec fn is_plus_line(l: Seq<char>) -> bool {
    let a = ws_end(l, 0);
    a < l.len() && l[a] == '+'
}

/// How many lines start with `+`.
pub open spec fn count_plus_lines(ls: Seq<Seq<char>>) -> int
    decreases ls.len(),
{
    if ls.len() == 0 {
        0
    } else {
        count_plus_lines(ls.drop_last()) + if is_plus_line(ls.last()) {
            1int
        } else {
            0int
        }
    }
}

/// The login rule this grammar chooses, in one statement: a login is an
/// `@` followed by an identifier that starts with a letter.  A bare `@`
/// and a login such as `@_f`, whose identifier starts with an
/// underscore, match no login; `@jeff` and `@x` do.
pub proof fn lemma_login_rule(s: Seq<char>)
    ensures
        is_login(s) ==> s.len() >= 2 && s[0] == '@' && is_letter(s[1]),
{
    if is_login(s) {
        assert(s.skip(1)[0] == s[1]);
    }
}

// ---------------------------------------------------------------------------
// Programs
// ---------------------------------------------------------------------------

/// What a program's syntax tree holds: the login token of the `me` line,
/// and the comment and command productions of the remaining lines, in
/// source order.
#[verifier::ext_equal]
pub struct ProgramView {
    pub login: Seq<char>,
    pub items: Seq<ItemView>,
}

/// One kept line of a program: a command or a comment.  Blank lines and
/// the `me` line contribute no item.
pub enum ItemView {
    Command(ObjectView),
    Comment(Seq<char>),
}

/// Whether a kind is acceptable in a program at all.
pub open spec fn kind_wf(k: LineKind) -> bool {
    !(k is Invalid)
}

/// The classification of every line of `s`.
pub open spec fn line_kinds(s: Seq<char>) -> Seq<LineKind> {
    spec_lines(s).map_values(|l: Seq<char>| line_kind(l))
}

/// A well-formed program: every line matches a production, exactly one
/// line is the `me` line, and no command line stands before it.
pub open spec fn program_wf(ks: Seq<LineKind>) -> bool {
    &&& forall|i: int| 0 <= i < ks.len() ==> kind_wf(#[trigger] ks[i])
    &&& exists|i: int| 0 <= i < ks.len() && #[trigger] ks[i] is Me
    &&& forall|i: int, j: int|
        0 <= i < ks.len() && 0 <= j < ks.len() && #[trigger] ks[i] is Me && #[trigger] ks[j] is Me
            ==> i == j
    &&& forall|i: int, j: int|
        0 <= i < ks.len() && 0 <= j < ks.len() && #[trigger] ks[i] is Me && #[trigger] ks[j] is Command
            ==> i < j
}

/// The login token of a well-formed program: the payload of its one `me`
/// line.
pub open spec fn program_login(ks: Seq<LineKind>) -> Seq<char> {
    let i = choose|i: int| 0 <= i < ks.len() && #[trigger] ks[i] is Me;
    ks[i]->Me_0
}

/// The items of a program: its command and comment lines, in order.
/// Blank lines and the `me` line contribute none.
pub open spec fn program_items(ks: Seq<LineKind>) -> Seq<ItemView>
    decreases ks.len(),
{
    if ks.len() == 0 {
        Seq::empty()
    } else {
        let rest = program_items(ks.drop_last());
        match ks.last() {
            LineKind::Command(o) => rest.push(ItemView::Command(o)),
            LineKind::Comment(t) => rest.push(ItemView::Comment(t)),
            _ => rest,
        }
    }
}

/// Parses a whole program text into its syntax tree, or `None` when the
/// text is not a well-formed program.
pub open spec fn parse_program(s: Seq<char>) -> Option<ProgramView> {
    let ks = line_kinds(s);
    if program_wf(ks) {
        Some(ProgramView { login: program_login(ks), items: program_items(ks) })
    } else {
        None
    }
}

} // verus!
