//! Verified text helpers: decimal rendering, newline counting, and the
//! bracketed list form that diagnostics use.

use vstd::prelude::*;
use vstd::string::StrSliceExecFns;
use vstd::string::StringExecFns;

use crate::grammar::lemma_lines_tally;
use crate::grammar::lemma_tally_bound;
use crate::grammar::line_count;
use crate::grammar::newline_tally;

verus! {

// ---------------------------------------------------------------------------
// Decimal rendering
// ---------------------------------------------------------------------------

/// The digit character of a value below ten.
pub open spec fn digit_char(d: int) -> char {
    if d == 0 {
        '0'
    } else if d == 1 {
        '1'
    } else if d == 2 {
        '2'
    } else if d == 3 {
        '3'
    } else if d == 4 {
        '4'
    } else if d == 5 {
        '5'
    } else if d == 6 {
        '6'
    } else if d == 7 {
        '7'
    } else if d == 8 {
        '8'
    } else {
        '9'
    }
}

/// The decimal form of a nonnegative value, most significant digit
/// first.
pub open spec fn dec_digits(n: int) -> Seq<char>
    decreases n,
{
    if n < 10 {
        seq![digit_char(n)]
    } else {
        dec_digits(n / 10).push(digit_char(n % 10))
    }
}

/// One digit as text.
fn digit_str(d: usize) -> (r: &'static str)
    requires
        d < 10,
    ensures
        r@ == seq![digit_char(d as int)],
{
    proof {
        reveal_strlit("0");
        reveal_strlit("1");
        reveal_strlit("2");
        reveal_strlit("3");
        reveal_strlit("4");
        reveal_strlit("5");
        reveal_strlit("6");
        reveal_strlit("7");
        reveal_strlit("8");
        reveal_strlit("9");
    }
    let r = if d == 0 {
        "0"
    } else if d == 1 {
        "1"
    } else if d == 2 {
        "2"
    } else if d == 3 {
        "3"
    } else if d == 4 {
        "4"
    } else if d == 5 {
        "5"
    } else if d == 6 {
        "6"
    } else if d == 7 {
        "7"
    } else if d == 8 {
        "8"
    } else {
        "9"
    };
    proof {
        assert(r@ =~= seq![digit_char(d as int)]);
    }
    r
}

/// Renders a value in decimal.
pub fn usize_string(n: usize) -> (r: String)
    ensures
        r@ == dec_digits(n as int),
    decreases n,
{
    if n < 10 {
        digit_str(n).to_owned()
    } else {
        let mut s = usize_string(n / 10);
        s.append(digit_str(n % 10));
        proof {
            assert(dec_digits(n as int) =~= dec_digits(n as int / 10) + seq![
                digit_char(n as int % 10),
            ]);
        }
        s
    }
}

// ---------------------------------------------------------------------------
// Bracketed lists
// ---------------------------------------------------------------------------

/// A name in double quotes.
pub open spec fn quoted(r: Seq<char>) -> Seq<char> {
    "\""@ + r + "\""@
}

/// Quoted names joined with a comma and a space.
pub open spec fn quoted_join(rs: Seq<Seq<char>>) -> Seq<char>
    decreases rs.len(),
{
    if rs.len() == 0 {
        Seq::empty()
    } else if rs.len() == 1 {
        quoted(rs[0])
    } else {
        quoted_join(rs.drop_last()) + ", "@ + quoted(rs.last())
    }
}

/// A list of quoted names in square brackets, as diagnostics print one:
/// `["x", "y"]`.
pub open spec fn bracketed_list(rs: Seq<Seq<char>>) -> Seq<char> {
    "["@ + quoted_join(rs) + "]"@
}

/// Renders a bracketed, quoted list of the given names.
pub fn quoted_list(rs: &Vec<String>) -> (r: String)
    ensures
        r@ == bracketed_list(rs.deep_view()),
{
    let mut out = "[".to_owned();
    let mut i: usize = 0;
    while i < rs.len()
        invariant
            i <= rs@.len(),
            out@ == "["@ + quoted_join(rs.deep_view().take(i as int)),
        decreases rs@.len() - i,
    {
        proof {
            assert(rs.deep_view().take(i + 1).drop_last() =~= rs.deep_view().take(i as int));
            assert(rs.deep_view().take(i + 1).last() == rs@[i as int]@);
        }
        if i > 0 {
            out.append(", ");
        }
        out.append("\"");
        out.append(rs[i].as_str());
        out.append("\"");
        proof {
            assert(out@ =~= "["@ + quoted_join(rs.deep_view().take(i + 1)));
        }
        i = i + 1;
    }
    out.append("]");
    proof {
        assert(rs.deep_view().take(rs@.len() as int) =~= rs.deep_view());
        assert(out@ =~= bracketed_list(rs.deep_view()));
    }
    out
}

// ---------------------------------------------------------------------------
// Line counting
// ---------------------------------------------------------------------------

/// Counts the lines of a text as `str::lines` counts them: a newline
/// terminates a line, a trailing newline opens no further one, and the
/// empty text has none.
pub fn count_lines(s: &str) -> (r: usize)
    ensures
        r as int == line_count(s@),
{
    let n = s.unicode_len();
    if n == 0 {
        return 0;
    }
    let mut tally: usize = 0;
    let mut j: usize = 0;
    while j < n
        invariant
            j <= n == s@.len(),
            tally <= j,
            newline_tally(s@, 0) == tally + newline_tally(s@, j as int),
        decreases n - j,
    {
        if s.get_char(j) == '\n' {
            tally = tally + 1;
        }
        j = j + 1;
    }
    proof {
        lemma_lines_tally(s@, 0);
        lemma_tally_bound(s@, 0);
    }
    if s.get_char(n - 1) == '\n' {
        tally
    } else {
        tally + 1
    }
}

} // verus!
