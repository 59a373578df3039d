//! The diagnostic block for a failed render. A positional failure is shown
//! with a header, the offending source line (clamped: a line number past the
//! template's last line shows as an empty line), and a caret line whose
//! marker stands under the offending column, after exactly `column - 1`
//! spaces (clamped to none when the column is 1 or less). A failure without
//! a position is shown as the error kind's message alone. The decorations
//! (label, gutter, arrow, caret) are supplied separately, so the block's
//! shape is pinned whatever the styling backend does to them.

use vstd::prelude::*;

use crate::formatter::RenderError;
use crate::style::StyleTok;
use crate::text::{append_chars, chars_of_str, dec_str, string_from_chars, subvec, u64_to_chars};

verus! {

/// The decorated fragments a diagnostic is assembled from.
pub struct Decorations {
    pub error_label: String,
    pub arrow: String,
    pub sep: String,
    pub caret: String,
}

impl Decorations {
    /// Undecorated fragments.
    pub fn plain() -> (r: Decorations)
        ensures
            r.error_label@ == "error"@,
            r.arrow@ == "-->"@,
            r.sep@ == "|"@,
            r.caret@ == "^"@,
    {
        Decorations {
            error_label: "error".to_owned(),
            arrow: "-->".to_owned(),
            sep: "|".to_owned(),
            caret: "^".to_owned(),
        }
    }

    /// The fragments decorated by the styling backend: a bold bright red
    /// label and caret, a bright blue arrow and gutter. What the decorated
    /// texts hold depends on the process environment.
    pub fn colored_default() -> Decorations {
        let label_chars = chars_of_str("error");
        let mut red_bold: Vec<StyleTok> = Vec::new();
        red_bold.push(StyleTok::Fg(chars_of_str("bright red")));
        red_bold.push(StyleTok::Bold);
        let mut blue: Vec<StyleTok> = Vec::new();
        blue.push(StyleTok::Fg(chars_of_str("bright blue")));
        Decorations {
            error_label: crate::style::apply_style_chars(&label_chars, &red_bold),
            arrow: crate::style::apply_style_chars(&chars_of_str("-->"), &blue),
            sep: crate::style::apply_style_chars(&chars_of_str("|"), &blue),
            caret: crate::style::apply_style_chars(&chars_of_str("^"), &red_bold),
        }
    }
}

/// `n` spaces.
pub open spec fn spaces(n: int) -> Seq<char>
    decreases n,
{
    if n <= 0 {
        Seq::empty()
    } else {
        spaces(n - 1).push(' ')
    }
}

/// Index of the first line break at or after `i`, or the length of `t`.
pub open spec fn find_nl(t: Seq<char>, i: int) -> int
    decreases t.len() - i,
{
    if i < 0 || i >= t.len() {
        t.len() as int
    } else if t[i] == '\n' {
        i
    } else {
        find_nl(t, i + 1)
    }
}

/// The 1-indexed `ln`th line of `t`; empty when `t` has fewer lines.
pub open spec fn nth_line(t: Seq<char>, ln: int) -> Seq<char>
    decreases t.len(), ln,
{
    let k = find_nl(t, 0);
    if ln <= 1 {
        if 0 <= k <= t.len() {
            t.subrange(0, k)
        } else {
            Seq::empty()
        }
    } else if k < 0 || k >= t.len() {
        Seq::empty()
    } else {
        nth_line(t.subrange(k + 1, t.len() as int), ln - 1)
    }
}

/// The line number gutter: the decimal number, right-aligned to two
/// characters.
pub open spec fn pad2(n: nat) -> Seq<char> {
    if n < 10 {
        seq![' '] + dec_str(n)
    } else {
        dec_str(n)
    }
}

/// The diagnostic block for `e`, over template text `t`, with decorations
/// `d`.
pub open spec fn diagnostic_spec(t: Seq<char>, e: RenderError, d: Decorations) -> Seq<char> {
    match e {
        RenderError::TemplateSyntax { line, col, msg } => d.error_label@ + ": "@ + msg@ + "\n  "@
            + d.arrow@ + " Format error in "@ + dec_str(line as nat) + ":"@ + dec_str(col as nat)
            + "\n   "@ + d.sep@ + "\n"@ + pad2(line as nat) + " "@ + d.sep@ + " "@ + nth_line(
            t,
            line as int,
        ) + "\n   "@ + d.sep@ + " "@ + spaces(col - 1) + d.caret@ + "\n"@,
        RenderError::ContextError { msg } => d.error_label@ + ": "@ + msg@ + "\n"@,
        RenderError::ArithmeticError { msg } => d.error_label@ + ": "@ + msg@ + "\n"@,
        RenderError::DataPrecondition { msg } => d.error_label@ + ": "@ + msg@ + "\n"@,
    }
}

fn find_nl_at(t: &Vec<char>, i: usize) -> (r: usize)
    requires
        i <= t@.len(),
    ensures
        r == find_nl(t@, i as int),
        i <= r <= t@.len(),
{
    let n = t.len();
    let mut j = i;
    while j < n
        invariant
            i <= j <= n == t@.len(),
            find_nl(t@, i as int) == find_nl(t@, j as int),
        decreases n - j,
    {
        if t[j] == '\n' {
            return j;
        }
        j = j + 1;
    }
    n
}

fn nth_line_x(t: &Vec<char>, ln: usize) -> (r: Vec<char>)
    ensures
        r@ == nth_line(t@, ln as int),
    decreases ln,
{
    let k = find_nl_at(t, 0);
    if ln <= 1 {
        subvec(t, 0, k)
    } else if k >= t.len() {
        Vec::new()
    } else {
        let rest = subvec(t, k + 1, t.len());
        nth_line_x(&rest, ln - 1)
    }
}

fn spaces_x(n: usize) -> (r: Vec<char>)
    ensures
        r@ == spaces(n as int),
{
    let mut r: Vec<char> = Vec::new();
    let mut i: usize = 0;
    while i < n
        invariant
            i <= n,
            r@ == spaces(i as int),
        decreases n - i,
    {
        r.push(' ');
        i = i + 1;
    }
    r
}

fn append_str(out: &mut Vec<char>, s: &str)
    ensures
        final(out)@ == old(out)@ + s@,
{
    let v = chars_of_str(s);
    append_chars(out, &v);
}

/// The diagnostic block, as `diagnostic_spec` says.
pub fn diagnostic_text(t: &Vec<char>, e: &RenderError, d: &Decorations) -> (r: String)
    ensures
        r@ == diagnostic_spec(t@, *e, *d),
{
    let mut out: Vec<char> = Vec::new();
    append_str(&mut out, d.error_label.as_str());
    append_str(&mut out, ": ");
    match e {
        RenderError::TemplateSyntax { line, col, msg } => {
            append_str(&mut out, msg.as_str());
            append_str(&mut out, "\n  ");
            append_str(&mut out, d.arrow.as_str());
            append_str(&mut out, " Format error in ");
            let line_digits = u64_to_chars(*line as u64);
            append_chars(&mut out, &line_digits);
            append_str(&mut out, ":");
            let col_digits = u64_to_chars(*col as u64);
            append_chars(&mut out, &col_digits);
            append_str(&mut out, "\n   ");
            append_str(&mut out, d.sep.as_str());
            append_str(&mut out, "\n");
            if *line < 10 {
                append_str(&mut out, " ");
            }
            append_chars(&mut out, &line_digits);
            append_str(&mut out, " ");
            append_str(&mut out, d.sep.as_str());
            append_str(&mut out, " ");
            let src = nth_line_x(t, *line);
            append_chars(&mut out, &src);
            append_str(&mut out, "\n   ");
            append_str(&mut out, d.sep.as_str());
            append_str(&mut out, " ");
            let pad = if *col >= 1 {
                spaces_x(*col - 1)
            } else {
                spaces_x(0)
            };
            append_chars(&mut out, &pad);
            append_str(&mut out, d.caret.as_str());
            append_str(&mut out, "\n");
            proof {
                reveal_strlit(" ");
                assert(pad@ == spaces(*col - 1));
                assert(pad2(*line as nat) =~= if *line < 10 {
                    seq![' '] + dec_str(*line as nat)
                } else {
                    dec_str(*line as nat)
                });
                assert(out@ =~= diagnostic_spec(t@, *e, *d));
            }
        },
        RenderError::ContextError { msg } => {
            append_str(&mut out, msg.as_str());
            append_str(&mut out, "\n");
            proof {
                assert(out@ =~= diagnostic_spec(t@, *e, *d));
            }
        },
        RenderError::ArithmeticError { msg } => {
            append_str(&mut out, msg.as_str());
            append_str(&mut out, "\n");
            proof {
                assert(out@ =~= diagnostic_spec(t@, *e, *d));
            }
        },
        RenderError::DataPrecondition { msg } => {
            append_str(&mut out, msg.as_str());
            append_str(&mut out, "\n");
            proof {
                assert(out@ =~= diagnostic_spec(t@, *e, *d));
            }
        },
    }
    string_from_chars(&out)
}

/// The outbound diagnostic for a failed render of `format`: the block of
/// `diagnostic_spec`, under the default decorations (whose exact texts
/// depend on the styling environment).
pub fn format_error_message(format: &str, error: &RenderError) -> (r: String)
    ensures
        exists|d: Decorations| r@ == diagnostic_spec(format@, *error, d),
{
    let chars = chars_of_str(format);
    let deco = Decorations::colored_default();
    let r = diagnostic_text(&chars, error, &deco);
    proof {
        assert(r@ == diagnostic_spec(format@, *error, deco));
    }
    r
}

} // verus!
