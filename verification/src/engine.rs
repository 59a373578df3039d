//! The template engine: a mustache-like interpolation language.
//!
//! Grammar, over the characters of the template:
//! - plain text is copied through unchanged;
//! - `{{` opens a tag, which runs to the first `}}` (an unclosed tag is a
//!   syntax error at the `{{`);
//! - a tag holds either a single value (a dotted path, a number, a quoted
//!   string, `true`/`false`, or a parenthesised helper call), or a helper
//!   name followed by whitespace-separated arguments, each a value or a
//!   `key=value` named argument;
//! - `{{#name ...}}` opens a block construct, closed by the next balanced
//!   `{{/...}}` tag. No block helpers exist: a block renders as empty text
//!   and its body is skipped verbatim (only tag delimiters are scanned, to
//!   balance nested blocks). An unclosed block is a syntax error at the
//!   `{{#`; a `{{/...}}` with no open block is a syntax error at the `{{/`.
//!
//! Syntax errors carry the position of the offending token; errors found
//! while evaluating a well-formed template (bad helper arguments, division
//! by zero) carry a message only. Arithmetic saturates at the `u64` bounds;
//! only division or modulo by zero is an error.
//!
//! The specification-level interpreter below models the `style` helper as
//! returning its text argument unchanged and raises a flag instead: the real
//! styling backend decorates text according to the process environment, so
//! the executable renderer is pinned to the interpreter exactly on templates
//! whose evaluation never styles, and error behaviour is pinned always.

use vstd::prelude::*;

use crate::text::{chars_eq_str, chars_of_str, chars_views, subvec};
use crate::value::{dict_get, lookup_spec, scalar_text, GVal, TplValue};

verus! {

/// A rendering failure, before positions are resolved to line and column.
pub enum EvalErr {
    /// Malformed template text; `at` is the character index of the
    /// offending token.
    Syntax { at: usize, msg: String },
    /// A helper invocation whose arguments cannot be evaluated.
    Ctx { msg: String },
    /// Division or modulo by zero.
    Arith { msg: String },
}

/// Model of a rendering failure.
pub ghost enum GErr {
    Syntax { at: int, msg: Seq<char> },
    Ctx { msg: Seq<char> },
    Arith { msg: Seq<char> },
}

impl DeepView for EvalErr {
    type V = GErr;

    open spec fn deep_view(&self) -> GErr {
        match self {
            EvalErr::Syntax { at, msg } => GErr::Syntax { at: *at as int, msg: msg@ },
            EvalErr::Ctx { msg } => GErr::Ctx { msg: msg@ },
            EvalErr::Arith { msg } => GErr::Arith { msg: msg@ },
        }
    }
}

/// Whitespace that separates arguments inside a tag.
pub open spec fn is_ws_char(c: char) -> bool {
    c == ' ' || c == '\t' || c == '\r' || c == '\n'
}

/// A decimal digit.
pub open spec fn is_digit_char(c: char) -> bool {
    '0' as u32 <= c as u32 && c as u32 <= '9' as u32
}

/// Characters with a syntactic role of their own inside a tag.
pub open spec fn is_delim_char(c: char) -> bool {
    c == '.' || c == '"' || c == '(' || c == ')' || c == '=' || c == '{' || c == '}' || c == '/'
        || c == '#'
}

/// Characters that may form an identifier (a helper name, a path segment, a
/// named-argument key).
pub open spec fn is_ident_char(c: char) -> bool {
    !is_ws_char(c) && !is_delim_char(c)
}

/// Index of the first `{{` at or after `i`, or the text length if none.
pub open spec fn find_open(t: Seq<char>, i: int) -> int
    decreases t.len() - i,
{
    if i + 1 >= t.len() {
        t.len() as int
    } else if t[i] == '{' && t[i + 1] == '{' {
        i
    } else {
        find_open(t, i + 1)
    }
}

/// Index of the first `}}` at or after `i`, or the text length if none.
pub open spec fn find_close(t: Seq<char>, i: int) -> int
    decreases t.len() - i,
{
    if i + 1 >= t.len() {
        t.len() as int
    } else if t[i] == '}' && t[i + 1] == '}' {
        i
    } else {
        find_close(t, i + 1)
    }
}

/// Index of the first non-whitespace character in `[i, hi)`, or `hi`.
pub open spec fn skip_ws(t: Seq<char>, i: int, hi: int) -> int
    decreases hi - i,
{
    if i >= hi {
        hi
    } else if is_ws_char(t[i]) {
        skip_ws(t, i + 1, hi)
    } else {
        i
    }
}

/// Index of the first non-identifier character in `[i, hi)`, or `hi`.
pub open spec fn scan_ident_end(t: Seq<char>, i: int, hi: int) -> int
    decreases hi - i,
{
    if i >= hi {
        hi
    } else if is_ident_char(t[i]) {
        scan_ident_end(t, i + 1, hi)
    } else {
        i
    }
}

/// Index of the first non-digit character in `[i, hi)`, or `hi`.
pub open spec fn scan_digits_end(t: Seq<char>, i: int, hi: int) -> int
    decreases hi - i,
{
    if i >= hi {
        hi
    } else if is_digit_char(t[i]) {
        scan_digits_end(t, i + 1, hi)
    } else {
        i
    }
}

/// Index of the first `"` in `[i, hi)`, or `hi`.
pub open spec fn find_quote(t: Seq<char>, i: int, hi: int) -> int
    decreases hi - i,
{
    if i >= hi {
        hi
    } else if t[i] == '"' {
        i
    } else {
        find_quote(t, i + 1, hi)
    }
}

/// `u64` addition, saturating at the top.
pub open spec fn sat_add(a: u64, b: u64) -> u64 {
    if a + b > u64::MAX {
        u64::MAX
    } else {
        (a + b) as u64
    }
}

/// `u64` subtraction, saturating at zero.
pub open spec fn sat_sub(a: u64, b: u64) -> u64 {
    if a >= b {
        (a - b) as u64
    } else {
        0
    }
}

/// `u64` multiplication, saturating at the top.
pub open spec fn sat_mul(a: u64, b: u64) -> u64 {
    if a * b > u64::MAX {
        u64::MAX
    } else {
        (a * b) as u64
    }
}

/// The value of the digits in `[i, j)`, read left to right, saturating at
/// `u64::MAX`.
pub open spec fn digits_val(t: Seq<char>, i: int, j: int, acc: u64) -> u64
    decreases j - i,
{
    if i >= j {
        acc
    } else {
        let d = (t[i] as u32 - '0' as u32) as u64;
        digits_val(t, i + 1, j, sat_add(sat_mul(acc, 10), d))
    }
}

/// The position just after the `{{/...}}` tag that closes a block whose body
/// starts at `i` with `depth` blocks open, or `None` if the text ends first.
/// Only tag delimiters are examined: block bodies are skipped verbatim.
pub open spec fn skip_body(t: Seq<char>, i: int, depth: int) -> Option<int>
    decreases t.len() - i,
{
    let p = find_open(t, i);
    if p >= t.len() {
        None
    } else {
        let q = find_close(t, p + 2);
        if q >= t.len() {
            None
        } else {
            let next = if i + 1 <= q + 2 && q + 2 <= t.len() {
                q + 2
            } else {
                i + 1
            };
            if p + 2 < t.len() && t[p + 2] == '#' {
                skip_body(t, next, depth + 1)
            } else if p + 2 < t.len() && t[p + 2] == '/' {
                if depth == 1 {
                    Some(q + 2)
                } else {
                    skip_body(t, next, depth - 1)
                }
            } else {
                skip_body(t, next, depth)
            }
        }
    }
}

/// Evaluated arguments of a helper invocation: positional values, named
/// values, whether styling ran, where parsing stopped, and whether it
/// stopped on a `)`.
pub ghost struct GArgs {
    pub pos: Seq<GVal>,
    pub named: Seq<(Seq<char>, GVal)>,
    pub styled: bool,
    pub end: int,
    pub closed: bool,
}

/// The elements of `items` as plain text, separated by `sep`.
pub open spec fn join_elems(items: Seq<GVal>, sep: Seq<char>) -> Seq<char>
    decreases items.len(),
{
    if items.len() == 0 {
        Seq::empty()
    } else if items.len() == 1 {
        scalar_text(items[0])
    } else {
        scalar_text(items[0]) + sep + join_elems(items.drop_first(), sep)
    }
}

/// First named argument called `key`, if any.
pub open spec fn named_get(named: Seq<(Seq<char>, GVal)>, key: Seq<char>) -> Option<GVal> {
    dict_get(named, key)
}

/// A dotted path: `true` and `false` are boolean literals; anything else is
/// resolved against the context.
pub open spec fn path_value(segs: Seq<Seq<char>>, ctx: GVal) -> GVal {
    if segs.len() == 1 && segs[0] == "true"@ {
        GVal::Bool(true)
    } else if segs.len() == 1 && segs[0] == "false"@ {
        GVal::Bool(false)
    } else {
        lookup_spec(ctx, segs)
    }
}

/// The dotted path starting at `i` (which must hold an identifier
/// character): its segments and the position after it, or the position of an
/// empty segment.
pub open spec fn parse_path(t: Seq<char>, i: int, hi: int) -> Result<(Seq<Seq<char>>, int), int>
    decreases hi - i,
{
    if i >= hi {
        Err(i)
    } else {
        let j = scan_ident_end(t, i, hi);
        if j == i {
            Err(i)
        } else {
            let seg = t.subrange(i, j);
            if j < hi && t[j] == '.' {
                let next = if i + 1 <= j + 1 && j + 1 <= hi {
                    j + 1
                } else {
                    i + 1
                };
                match parse_path(t, next, hi) {
                    Err(p) => Err(p),
                    Ok((segs, end)) => Ok((seq![seg] + segs, end)),
                }
            } else {
                Ok((seq![seg], j))
            }
        }
    }
}

/// What one arithmetic helper application yields.
pub open spec fn arith_result(op: Seq<char>, a: u64, b: u64) -> Result<(GVal, bool), GErr> {
    if op == "add"@ {
        Ok((GVal::Num(sat_add(a, b)), false))
    } else if op == "sub"@ {
        Ok((GVal::Num(sat_sub(a, b)), false))
    } else if op == "mul"@ {
        Ok((GVal::Num(sat_mul(a, b)), false))
    } else if op == "div"@ {
        if b == 0 {
            Err(GErr::Arith { msg: "division by zero"@ })
        } else {
            Ok((GVal::Num((a / b) as u64), false))
        }
    } else {
        if b == 0 {
            Err(GErr::Arith { msg: "modulo by zero"@ })
        } else {
            Ok((GVal::Num((a % b) as u64), false))
        }
    }
}

/// Whether `name` names an arithmetic helper.
pub open spec fn is_arith_name(name: Seq<char>) -> bool {
    name == "add"@ || name == "sub"@ || name == "mul"@ || name == "div"@ || name == "mod"@
}

/// What a helper invocation yields. Unknown helper names resolve to empty
/// text rather than failing.
pub open spec fn apply_helper(name: Seq<char>, a: GArgs) -> Result<(GVal, bool), GErr> {
    if is_arith_name(name) {
        if a.pos.len() == 2 && a.pos[0] is Num && a.pos[1] is Num {
            match arith_result(name, a.pos[0]->Num_0, a.pos[1]->Num_0) {
                Ok((v, _)) => Ok((v, a.styled)),
                Err(e) => Err(e),
            }
        } else {
            Err(GErr::Ctx { msg: "arithmetic helpers expect two numeric arguments"@ })
        }
    } else if name == "style"@ {
        if a.pos.len() == 2 && a.pos[1] is Text {
            Ok((GVal::Text(scalar_text(a.pos[0])), true))
        } else {
            Err(GErr::Ctx { msg: "style expects a value and a text of style names"@ })
        }
    } else if name == "join"@ {
        if a.pos.len() == 1 && a.pos[0] is List {
            match named_get(a.named, "sep"@) {
                Some(sv) => if sv is Text {
                    Ok((GVal::Text(join_elems(a.pos[0]->List_0, sv->Text_0)), a.styled))
                } else {
                    Err(GErr::Ctx { msg: "join expects its separator to be text"@ })
                },
                None => Ok((GVal::Text(join_elems(a.pos[0]->List_0, ","@)), a.styled)),
            }
        } else {
            Err(GErr::Ctx { msg: "join expects one sequence argument"@ })
        }
    } else {
        Ok((GVal::Text(Seq::empty()), a.styled))
    }
}

/// The fuel that bounds expression-parsing recursion inside one tag.
pub open spec fn tag_fuel(lo: int, hi: int) -> nat {
    (4 * (if hi > lo {
        hi - lo
    } else {
        0
    }) + 16) as nat
}

/// The arguments starting at `i` in `[i, hi)`: evaluated left to right,
/// eagerly; the first failure wins.
pub open spec fn parse_args(t: Seq<char>, i: int, hi: int, ctx: GVal, fuel: nat) -> Result<
    GArgs,
    GErr,
>
    decreases fuel,
{
    if fuel == 0 {
        Err(GErr::Syntax { at: i, msg: "expression too deeply nested"@ })
    } else {
        let k = skip_ws(t, i, hi);
        if k >= hi {
            Ok(GArgs { pos: Seq::empty(), named: Seq::empty(), styled: false, end: hi, closed: false })
        } else if t[k] == ')' {
            Ok(GArgs { pos: Seq::empty(), named: Seq::empty(), styled: false, end: k, closed: true })
        } else {
            match parse_one(t, k, hi, ctx, (fuel - 1) as nat) {
                Err(e) => Err(e),
                Ok((key, v, styled1, end1)) => match parse_args(t, end1, hi, ctx, (fuel - 1) as nat) {
                    Err(e) => Err(e),
                    Ok(rest) => Ok(
                        GArgs {
                            pos: if key is None {
                                seq![v] + rest.pos
                            } else {
                                rest.pos
                            },
                            named: if key is Some {
                                seq![(key->0, v)] + rest.named
                            } else {
                                rest.named
                            },
                            styled: styled1 || rest.styled,
                            end: rest.end,
                            closed: rest.closed,
                        },
                    ),
                },
            }
        }
    }
}

/// One argument starting at `i` (not whitespace, not `)`): an optional
/// `key=` prefix and a value, which is a number, a quoted string, a
/// parenthesised helper call, or a dotted path.
pub open spec fn parse_one(t: Seq<char>, i: int, hi: int, ctx: GVal, fuel: nat) -> Result<
    (Option<Seq<char>>, GVal, bool, int),
    GErr,
>
    decreases fuel,
{
    if fuel == 0 {
        Err(GErr::Syntax { at: i, msg: "expression too deeply nested"@ })
    } else if is_digit_char(t[i]) {
        let j = scan_digits_end(t, i, hi);
        if j < hi && !is_ws_char(t[j]) && t[j] != ')' {
            Err(GErr::Syntax { at: j, msg: "unexpected character in expression"@ })
        } else {
            Ok((None, GVal::Num(digits_val(t, i, j, 0)), false, j))
        }
    } else if t[i] == '"' {
        let j = find_quote(t, i + 1, hi);
        if j >= hi {
            Err(GErr::Syntax { at: i, msg: "unterminated string literal"@ })
        } else {
            Ok((None, GVal::Text(t.subrange(i + 1, j)), false, j + 1))
        }
    } else if t[i] == '(' {
        match parse_call(t, i, hi, ctx, (fuel - 1) as nat) {
            Err(e) => Err(e),
            Ok((v, styled, end)) => Ok((None, v, styled, end)),
        }
    } else if is_ident_char(t[i]) {
        match parse_path(t, i, hi) {
            Err(p) => Err(GErr::Syntax { at: p, msg: "unexpected character in expression"@ }),
            Ok((segs, j)) => {
                if segs.len() == 1 && j < hi && t[j] == '=' {
                    match parse_value(t, j + 1, hi, ctx, (fuel - 1) as nat) {
                        Err(e) => Err(e),
                        Ok((v, styled, end)) => Ok((Some(segs[0]), v, styled, end)),
                    }
                } else {
                    Ok((None, path_value(segs, ctx), false, j))
                }
            },
        }
    } else {
        Err(GErr::Syntax { at: i, msg: "unexpected character in expression"@ })
    }
}

/// The value after a `key=`: as `parse_one`, but a nested `key=` is refused.
pub open spec fn parse_value(t: Seq<char>, i: int, hi: int, ctx: GVal, fuel: nat) -> Result<
    (GVal, bool, int),
    GErr,
>
    decreases fuel,
{
    if fuel == 0 {
        Err(GErr::Syntax { at: i, msg: "expression too deeply nested"@ })
    } else if i >= hi {
        Err(GErr::Syntax { at: i, msg: "expected a value after `=`"@ })
    } else {
        match parse_one(t, i, hi, ctx, (fuel - 1) as nat) {
            Err(e) => Err(e),
            Ok((key, v, styled, end)) => if key is Some {
                Err(GErr::Syntax { at: i, msg: "expected a value after `=`"@ })
            } else {
                Ok((v, styled, end))
            },
        }
    }
}

/// A parenthesised helper call starting at the `(` at `i`: a helper name and
/// arguments, up to the matching `)`.
pub open spec fn parse_call(t: Seq<char>, i: int, hi: int, ctx: GVal, fuel: nat) -> Result<
    (GVal, bool, int),
    GErr,
>
    decreases fuel,
{
    if fuel == 0 {
        Err(GErr::Syntax { at: i, msg: "expression too deeply nested"@ })
    } else {
        let k = skip_ws(t, i + 1, hi);
        let j = scan_ident_end(t, k, hi);
        if k >= hi || j == k {
            Err(GErr::Syntax { at: i, msg: "expected a helper name after `(`"@ })
        } else {
            let name = t.subrange(k, j);
            match parse_args(t, j, hi, ctx, (fuel - 1) as nat) {
                Err(e) => Err(e),
                Ok(a) => if a.closed {
                    match apply_helper(name, a) {
                        Err(e) => Err(e),
                        Ok((v, styled)) => Ok((v, styled || a.styled, a.end + 1)),
                    }
                } else {
                    Err(GErr::Syntax { at: i, msg: "unterminated subexpression"@ })
                },
            }
        }
    }
}

/// The whole content of a `{{...}}` tag in `[lo, hi)`: a single value, or a
/// helper invocation.
pub open spec fn eval_tag(t: Seq<char>, lo: int, hi: int, ctx: GVal) -> Result<(GVal, bool), GErr> {
    let fuel = tag_fuel(lo, hi);
    let k = skip_ws(t, lo, hi);
    if k >= hi {
        Err(GErr::Syntax { at: lo, msg: "empty expression"@ })
    } else if is_digit_char(t[k]) || t[k] == '"' || t[k] == '(' {
        match parse_one(t, k, hi, ctx, fuel) {
            Err(e) => Err(e),
            Ok((_key, v, styled, end)) => {
                let k2 = skip_ws(t, end, hi);
                if k2 < hi {
                    Err(GErr::Syntax { at: k2, msg: "unexpected character in expression"@ })
                } else {
                    Ok((v, styled))
                }
            },
        }
    } else if is_ident_char(t[k]) {
        match parse_path(t, k, hi) {
            Err(p) => Err(GErr::Syntax { at: p, msg: "unexpected character in expression"@ }),
            Ok((segs, j)) => {
                if j < hi && t[j] == '=' {
                    Err(GErr::Syntax { at: j, msg: "unexpected character in expression"@ })
                } else {
                    match parse_args(t, j, hi, ctx, fuel) {
                        Err(e) => Err(e),
                        Ok(a) => if a.closed {
                            Err(GErr::Syntax { at: a.end, msg: "unexpected character in expression"@ })
                        } else if a.pos.len() == 0 && a.named.len() == 0 {
                            Ok((path_value(segs, ctx), false))
                        } else if segs.len() == 1 {
                            match apply_helper(segs[0], a) {
                                Err(e) => Err(e),
                                Ok((v, styled)) => Ok((v, styled || a.styled)),
                            }
                        } else {
                            Ok((GVal::Text(Seq::empty()), a.styled))
                        },
                    }
                }
            },
        }
    } else {
        Err(GErr::Syntax { at: k, msg: "unexpected character in expression"@ })
    }
}

/// The rendering of the template from position `i` on: text chunks copied
/// through, tags evaluated to their plain-text reading, blocks skipped.
pub open spec fn eval_items(t: Seq<char>, i: int, ctx: GVal) -> Result<(Seq<char>, bool), GErr>
    decreases t.len() - i,
{
    let p = find_open(t, i);
    if p >= t.len() {
        Ok((t.subrange(i, t.len() as int), false))
    } else {
        let head = t.subrange(i, p);
        if p + 2 < t.len() && t[p + 2] == '#' {
            let q = find_close(t, p + 2);
            if q >= t.len() {
                Err(GErr::Syntax { at: p, msg: "unterminated block"@ })
            } else {
                match skip_body(t, if i + 1 <= q + 2 && q + 2 <= t.len() {
                    q + 2
                } else {
                    i + 1
                }, 1) {
                    None => Err(GErr::Syntax { at: p, msg: "unterminated block"@ }),
                    Some(after) => {
                        let next = if i + 1 <= after && after <= t.len() {
                            after
                        } else {
                            i + 1
                        };
                        match eval_items(t, next, ctx) {
                            Err(e) => Err(e),
                            Ok((rest, styled)) => Ok((head + rest, styled)),
                        }
                    },
                }
            }
        } else if p + 2 < t.len() && t[p + 2] == '/' {
            Err(GErr::Syntax { at: p, msg: "unexpected closing tag"@ })
        } else {
            let q = find_close(t, p + 2);
            if q >= t.len() {
                Err(GErr::Syntax { at: p, msg: "unterminated expression"@ })
            } else {
                match eval_tag(t, p + 2, q, ctx) {
                    Err(e) => Err(e),
                    Ok((v, styled1)) => {
                        let next = if i + 1 <= q + 2 && q + 2 <= t.len() {
                            q + 2
                        } else {
                            i + 1
                        };
                        match eval_items(t, next, ctx) {
                            Err(e) => Err(e),
                            Ok((rest, styled2)) => Ok(
                                (head + scalar_text(v) + rest, styled1 || styled2),
                            ),
                        }
                    },
                }
            }
        }
    }
}

/// What rendering a template against a context yields: the output text and
/// whether styling ran, or the first failure.
pub open spec fn render_spec(t: Seq<char>, ctx: GVal) -> Result<(Seq<char>, bool), GErr> {
    eval_items(t, 0, ctx)
}


/// How an executable value relates to its model when styling may have run:
/// equal, or both text (whose content then depends on the environment).
pub open spec fn vrel(x: GVal, g: GVal) -> bool {
    x == g || (x is Text && g is Text)
}

/// Pairwise `vrel`, and equality when no styling ran.
pub open spec fn gvals_rel(xs: Seq<GVal>, gs: Seq<GVal>, styled: bool) -> bool {
    &&& xs.len() == gs.len()
    &&& forall|i: int| 0 <= i < xs.len() ==> vrel(xs[i], gs[i])
    &&& !styled ==> xs == gs
}

/// Pairwise `vrel` on values with equal keys, and equality when no styling
/// ran.
pub open spec fn named_rel(
    xs: Seq<(Seq<char>, GVal)>,
    gs: Seq<(Seq<char>, GVal)>,
    styled: bool,
) -> bool {
    &&& xs.len() == gs.len()
    &&& forall|i: int| 0 <= i < xs.len() ==> xs[i].0 == gs[i].0 && vrel(xs[i].1, gs[i].1)
    &&& !styled ==> xs == gs
}

/// Evaluated arguments of a helper invocation.
pub struct Args {
    pub pos: Vec<TplValue>,
    pub named: Vec<(Vec<char>, TplValue)>,
    pub styled: bool,
    pub end: usize,
    pub closed: bool,
}

/// The models of named arguments.
pub open spec fn named_views(v: Seq<(Vec<char>, TplValue)>) -> Seq<(Seq<char>, GVal)> {
    Seq::new(
        v.len(),
        |i: int|
            if 0 <= i < v.len() {
                (v[i].0@, v[i].1.deep_view())
            } else {
                (Seq::empty(), GVal::Absent)
            },
    )
}

/// How executable arguments relate to their model.
pub open spec fn args_rel(a: Args, g: GArgs) -> bool {
    &&& a.styled == g.styled
    &&& a.end as int == g.end
    &&& a.closed == g.closed
    &&& gvals_rel(a.pos.deep_view(), g.pos, g.styled)
    &&& named_rel(named_views(a.named@), g.named, g.styled)
}

/// How an executable value result relates to its model.
pub open spec fn val_res_rel(
    r: Result<(TplValue, bool), EvalErr>,
    s: Result<(GVal, bool), GErr>,
) -> bool {
    match r {
        Ok((v, st)) => s matches Ok(g) && g.1 == st && vrel(v.deep_view(), g.0) && (!st
            ==> v.deep_view() == g.0),
        Err(e) => s matches Err(ge) && e.deep_view() == ge,
    }
}

fn syn_err(at: usize, m: &str) -> (r: EvalErr)
    ensures
        r.deep_view() == (GErr::Syntax { at: at as int, msg: m@ }),
{
    EvalErr::Syntax { at, msg: m.to_owned() }
}

fn ctx_err(m: &str) -> (r: EvalErr)
    ensures
        r.deep_view() == (GErr::Ctx { msg: m@ }),
{
    EvalErr::Ctx { msg: m.to_owned() }
}

fn arith_err(m: &str) -> (r: EvalErr)
    ensures
        r.deep_view() == (GErr::Arith { msg: m@ }),
{
    EvalErr::Arith { msg: m.to_owned() }
}

fn is_digit(c: char) -> (r: bool)
    ensures
        r == is_digit_char(c),
{
    ('0' as u32) <= (c as u32) && (c as u32) <= ('9' as u32)
}

fn is_delim(c: char) -> (r: bool)
    ensures
        r == is_delim_char(c),
{
    c == '.' || c == '"' || c == '(' || c == ')' || c == '=' || c == '{' || c == '}' || c == '/'
        || c == '#'
}

fn is_ident(c: char) -> (r: bool)
    ensures
        r == is_ident_char(c),
{
    !crate::style::is_ws(c) && !is_delim(c)
}

fn find_open_at(t: &Vec<char>, i: usize) -> (r: usize)
    requires
        i <= t@.len(),
        t@.len() < usize::MAX,
    ensures
        r == find_open(t@, i as int),
        i <= r <= t@.len(),
        r < t@.len() ==> r + 2 <= t@.len(),
{
    let n = t.len();
    let mut j = i;
    while j + 1 < n
        invariant
            i <= j,
            j <= n == t@.len(),
            n < usize::MAX,
            find_open(t@, i as int) == find_open(t@, j as int),
        decreases n - j,
    {
        if t[j] == '{' && t[j + 1] == '{' {
            return j;
        }
        j = j + 1;
    }
    n
}

fn find_close_at(t: &Vec<char>, i: usize) -> (r: usize)
    requires
        i <= t@.len(),
        t@.len() < usize::MAX,
    ensures
        r == find_close(t@, i as int),
        i <= r <= t@.len(),
        r < t@.len() ==> r + 2 <= t@.len(),
{
    let n = t.len();
    let mut j = i;
    while j + 1 < n
        invariant
            i <= j,
            j <= n == t@.len(),
            n < usize::MAX,
            find_close(t@, i as int) == find_close(t@, j as int),
        decreases n - j,
    {
        if t[j] == '}' && t[j + 1] == '}' {
            return j;
        }
        j = j + 1;
    }
    n
}

fn scan_ident_at(t: &Vec<char>, i: usize, hi: usize) -> (r: usize)
    requires
        i <= hi <= t@.len(),
    ensures
        r == scan_ident_end(t@, i as int, hi as int),
        i <= r <= hi,
{
    let mut j = i;
    while j < hi
        invariant
            i <= j <= hi <= t@.len(),
            scan_ident_end(t@, i as int, hi as int) == scan_ident_end(t@, j as int, hi as int),
        decreases hi - j,
    {
        if !is_ident(t[j]) {
            return j;
        }
        j = j + 1;
    }
    j
}

fn scan_digits_at(t: &Vec<char>, i: usize, hi: usize) -> (r: usize)
    requires
        i <= hi <= t@.len(),
    ensures
        r == scan_digits_end(t@, i as int, hi as int),
        i <= r <= hi,
        forall|k: int| i <= k < r ==> is_digit_char(t@[k]),
{
    let mut j = i;
    while j < hi
        invariant
            i <= j <= hi <= t@.len(),
            scan_digits_end(t@, i as int, hi as int) == scan_digits_end(t@, j as int, hi as int),
            forall|k: int| i <= k < j ==> is_digit_char(t@[k]),
        decreases hi - j,
    {
        if !is_digit(t[j]) {
            return j;
        }
        j = j + 1;
    }
    j
}

fn find_quote_at(t: &Vec<char>, i: usize, hi: usize) -> (r: usize)
    requires
        i <= hi <= t@.len(),
    ensures
        r == find_quote(t@, i as int, hi as int),
        i <= r <= hi,
{
    let mut j = i;
    while j < hi
        invariant
            i <= j <= hi <= t@.len(),
            find_quote(t@, i as int, hi as int) == find_quote(t@, j as int, hi as int),
        decreases hi - j,
    {
        if t[j] == '"' {
            return j;
        }
        j = j + 1;
    }
    j
}

fn sat_add_x(a: u64, b: u64) -> (r: u64)
    ensures
        r == sat_add(a, b),
{
    if a > u64::MAX - b {
        u64::MAX
    } else {
        a + b
    }
}

fn sat_sub_x(a: u64, b: u64) -> (r: u64)
    ensures
        r == sat_sub(a, b),
{
    if a >= b {
        a - b
    } else {
        0
    }
}

fn sat_mul_x(a: u64, b: u64) -> (r: u64)
    ensures
        r == sat_mul(a, b),
{
    if b == 0 {
        proof {
            assert(a * 0 == 0) by (nonlinear_arith);
        }
        0
    } else if a > u64::MAX / b {
        proof {
            vstd::arithmetic::div_mod::lemma_fundamental_div_mod(u64::MAX as int, b as int);
            assert(a * b > u64::MAX) by (nonlinear_arith)
                requires
                    a >= u64::MAX as int / b as int + 1,
                    b >= 1,
                    u64::MAX as int == b as int * (u64::MAX as int / b as int) + u64::MAX as int
                        % b as int,
                    0 <= u64::MAX as int % b as int,
                    (u64::MAX as int % b as int) < b as int,
            ;
        }
        u64::MAX
    } else {
        proof {
            vstd::arithmetic::div_mod::lemma_fundamental_div_mod(u64::MAX as int, b as int);
            assert(a * b <= u64::MAX) by (nonlinear_arith)
                requires
                    a <= u64::MAX as int / b as int,
                    b >= 1,
                    u64::MAX as int == b as int * (u64::MAX as int / b as int) + u64::MAX as int
                        % b as int,
                    0 <= u64::MAX as int % b as int,
                    (u64::MAX as int % b as int) < b as int,
            ;
        }
        a * b
    }
}

fn digits_val_x(t: &Vec<char>, i: usize, j: usize, acc: u64) -> (r: u64)
    requires
        i <= j <= t@.len(),
        forall|k: int| i <= k < j ==> is_digit_char(t@[k]),
    ensures
        r == digits_val(t@, i as int, j as int, acc),
    decreases j - i,
{
    if i >= j {
        acc
    } else {
        let c = t[i];
        let d: u64 = ((c as u32) - ('0' as u32)) as u64;
        let acc2 = sat_add_x(sat_mul_x(acc, 10), d);
        digits_val_x(t, i + 1, j, acc2)
    }
}

fn skip_body_x(t: &Vec<char>, i: usize, depth: usize) -> (r: Option<usize>)
    requires
        i <= t@.len(),
        t@.len() < usize::MAX,
        1 <= depth,
        depth + (t@.len() - i) < usize::MAX,
    ensures
        match r {
            Some(a) => skip_body(t@, i as int, depth as int) == Some(a as int) && i < a && a <= t@.len(),
            None => skip_body(t@, i as int, depth as int) is None,
        },
    decreases t@.len() - i,
{
    let n = t.len();
    let p = find_open_at(t, i);
    if p >= n {
        return None;
    }
    let q = find_close_at(t, p + 2);
    if q >= n {
        return None;
    }
    let marker = t[p + 2];
    if marker == '#' {
        skip_body_x(t, q + 2, depth + 1)
    } else if marker == '/' {
        if depth == 1 {
            Some(q + 2)
        } else {
            skip_body_x(t, q + 2, depth - 1)
        }
    } else {
        skip_body_x(t, q + 2, depth)
    }
}


/// Whether the model of `v` is a number.
fn is_num(v: &TplValue) -> (b: bool)
    ensures
        b == (v.deep_view() is Num),
{
    match v {
        TplValue::Num(_) => true,
        _ => false,
    }
}

/// The number `v` holds.
fn get_num(v: &TplValue) -> (x: u64)
    requires
        v.deep_view() is Num,
    ensures
        v.deep_view() == GVal::Num(x),
{
    match v {
        TplValue::Num(n) => *n,
        _ => 0,
    }
}

/// Whether the model of `v` is text.
fn is_text(v: &TplValue) -> (b: bool)
    ensures
        b == (v.deep_view() is Text),
{
    match v {
        TplValue::Text(_) => true,
        _ => false,
    }
}

/// Whether the model of `v` is a sequence.
fn is_list(v: &TplValue) -> (b: bool)
    ensures
        b == (v.deep_view() is List),
{
    match v {
        TplValue::List(_) => true,
        _ => false,
    }
}

/// The dotted path starting at `i`, as `parse_path` says.
fn parse_path_x(t: &Vec<char>, i: usize, hi: usize) -> (r: Result<(Vec<Vec<char>>, usize), usize>)
    requires
        i <= hi <= t@.len(),
    ensures
        ({
            let s = parse_path(t@, i as int, hi as int);
            match r {
                Ok((segs, end)) => s matches Ok(g) && chars_views(segs@) == g.0 && end as int
                    == g.1 && i <= end <= hi && segs@.len() >= 1,
                Err(p) => s matches Err(gp) && p as int == gp,
            }
        }),
    decreases hi - i,
{
    if i >= hi {
        return Err(i);
    }
    let j = scan_ident_at(t, i, hi);
    if j == i {
        return Err(i);
    }
    let seg = subvec(t, i, j);
    if j < hi && t[j] == '.' {
        match parse_path_x(t, j + 1, hi) {
            Err(p) => Err(p),
            Ok((rest, end)) => {
                let ghost oldviews = chars_views(rest@);
                let mut rest = rest;
                rest.insert(0, seg);
                proof {
                    assert(chars_views(rest@) =~= seq![t@.subrange(i as int, j as int)]
                        + oldviews);
                }
                Ok((rest, end))
            },
        }
    } else {
        let mut segs: Vec<Vec<char>> = Vec::new();
        segs.push(seg);
        proof {
            assert(chars_views(segs@) =~= seq![t@.subrange(i as int, j as int)]);
        }
        Ok((segs, j))
    }
}

/// The value a parsed path stands for, as `path_value` says.
fn path_value_x(segs: &Vec<Vec<char>>, ctx: &TplValue) -> (r: TplValue)
    ensures
        r.deep_view() == path_value(chars_views(segs@), ctx.deep_view()),
{
    proof {
        assert(chars_views(segs@).len() == segs@.len());
        if segs@.len() >= 1 {
            assert(chars_views(segs@)[0] == segs@[0]@);
        }
    }
    if segs.len() == 1 && chars_eq_str(&segs[0], "true") {
        TplValue::Bool(true)
    } else if segs.len() == 1 && chars_eq_str(&segs[0], "false") {
        TplValue::Bool(false)
    } else {
        proof {
            assert(chars_views(segs@).skip(0) =~= chars_views(segs@));
        }
        match ctx.lookup(segs, 0) {
            Some(x) => x.deep_clone(),
            None => TplValue::Absent,
        }
    }
}

/// First named argument called `key`, if any.
fn named_lookup<'a>(named: &'a Vec<(Vec<char>, TplValue)>, key: &str) -> (r: Option<
    &'a TplValue,
>)
    ensures
        match dict_get(named_views(named@), key@) {
            Some(gv) => r matches Some(x) && x.deep_view() == gv,
            None => r is None,
        },
{
    let ghost gentries = named_views(named@);
    proof {
        assert(gentries.skip(0) =~= gentries);
    }
    let n = named.len();
    let mut i: usize = 0;
    while i < n
        invariant
            n == named@.len(),
            i <= n,
            gentries == named_views(named@),
            dict_get(gentries, key@) == dict_get(gentries.skip(i as int), key@),
        decreases n - i,
    {
        proof {
            assert(gentries.skip(i as int)[0] == gentries[i as int]);
            assert(gentries.skip(i as int).drop_first() =~= gentries.skip(i + 1));
        }
        if chars_eq_str(&named[i].0, key) {
            return Some(&named[i].1);
        }
        i = i + 1;
    }
    proof {
        assert(gentries.skip(n as int) =~= Seq::empty());
    }
    None
}

/// `dict_get` finds related values in related argument lists.
proof fn lemma_dict_get_rel(
    xs: Seq<(Seq<char>, GVal)>,
    gs: Seq<(Seq<char>, GVal)>,
    styled: bool,
    key: Seq<char>,
)
    requires
        named_rel(xs, gs, styled),
    ensures
        match (dict_get(xs, key), dict_get(gs, key)) {
            (Some(a), Some(b)) => vrel(a, b) && (!styled ==> a == b),
            (None, None) => true,
            _ => false,
        },
    decreases xs.len(),
{
    if xs.len() == 0 {
    } else {
        assert(xs[0].0 == gs[0].0 && vrel(xs[0].1, gs[0].1));
        if xs[0].0 == key {
        } else {
            assert forall|i: int| 0 <= i < xs.drop_first().len() implies xs.drop_first()[i].0
                == gs.drop_first()[i].0 && vrel(xs.drop_first()[i].1, gs.drop_first()[i].1) by {
                assert(xs.drop_first()[i] == xs[i + 1]);
                assert(gs.drop_first()[i] == gs[i + 1]);
            }
            if !styled {
                assert(xs.drop_first() =~= gs.drop_first());
            }
            lemma_dict_get_rel(xs.drop_first(), gs.drop_first(), styled, key);
        }
    }
}

/// The elements of `items` from `k` on, joined with `sep`.
fn join_texts(items: &Vec<TplValue>, k: usize, sep: &Vec<char>) -> (r: Vec<char>)
    requires
        k <= items@.len(),
    ensures
        r@ == join_elems(items.deep_view().skip(k as int), sep@),
    decreases items@.len() - k,
{
    proof {
        assert(items.deep_view().len() == items@.len());
    }
    if k == items.len() {
        proof {
            assert(items.deep_view().skip(k as int) =~= Seq::<GVal>::empty());
        }
        Vec::new()
    } else {
        let mut out = items[k].to_text_chars();
        proof {
            assert(items.deep_view().skip(k as int)[0] == items.deep_view()[k as int]);
            assert(items.deep_view()[k as int] == items@[k as int].deep_view());
        }
        if k + 1 == items.len() {
            proof {
                assert(items.deep_view().skip(k as int).len() == 1);
            }
            out
        } else {
            crate::text::append_chars(&mut out, sep);
            let rest = join_texts(items, k + 1, sep);
            crate::text::append_chars(&mut out, &rest);
            proof {
                assert(items.deep_view().skip(k as int).drop_first() =~= items.deep_view().skip(
                    k + 1,
                ));
                assert(out@ =~= scalar_text(items.deep_view().skip(k as int)[0]) + sep@
                    + join_elems(items.deep_view().skip(k + 1), sep@));
            }
            out
        }
    }
}

/// Applies one helper to evaluated arguments, as `apply_helper` says.
fn apply_helper_x(name: &Vec<char>, a: Args, Ghost(g): Ghost<GArgs>) -> (r: Result<
    (TplValue, bool),
    EvalErr,
>)
    requires
        args_rel(a, g),
    ensures
        val_res_rel(r, apply_helper(name@, g)),
{
    proof {
        assert(a.pos.deep_view().len() == a.pos@.len());
    }
    let arith = chars_eq_str(name, "add") || chars_eq_str(name, "sub") || chars_eq_str(
        name,
        "mul",
    ) || chars_eq_str(name, "div") || chars_eq_str(name, "mod");
    if arith {
        if a.pos.len() == 2 && is_num(&a.pos[0]) && is_num(&a.pos[1]) {
            proof {
                assert(a.pos.deep_view()[0] == a.pos@[0].deep_view());
                assert(a.pos.deep_view()[1] == a.pos@[1].deep_view());
                assert(vrel(a.pos.deep_view()[0], g.pos[0]));
                assert(vrel(a.pos.deep_view()[1], g.pos[1]));
            }
            let x = get_num(&a.pos[0]);
            let y = get_num(&a.pos[1]);
            if chars_eq_str(name, "add") {
                Ok((TplValue::Num(sat_add_x(x, y)), a.styled))
            } else if chars_eq_str(name, "sub") {
                Ok((TplValue::Num(sat_sub_x(x, y)), a.styled))
            } else if chars_eq_str(name, "mul") {
                Ok((TplValue::Num(sat_mul_x(x, y)), a.styled))
            } else if chars_eq_str(name, "div") {
                if y == 0 {
                    Err(arith_err("division by zero"))
                } else {
                    Ok((TplValue::Num(x / y), a.styled))
                }
            } else {
                if y == 0 {
                    Err(arith_err("modulo by zero"))
                } else {
                    Ok((TplValue::Num(x % y), a.styled))
                }
            }
        } else {
            proof {
                if a.pos@.len() == 2 {
                    assert(a.pos.deep_view()[0] == a.pos@[0].deep_view());
                    assert(a.pos.deep_view()[1] == a.pos@[1].deep_view());
                    assert(vrel(a.pos.deep_view()[0], g.pos[0]));
                    assert(vrel(a.pos.deep_view()[1], g.pos[1]));
                }
            }
            Err(ctx_err("arithmetic helpers expect two numeric arguments"))
        }
    } else if chars_eq_str(name, "style") {
        if a.pos.len() == 2 && is_text(&a.pos[1]) {
            proof {
                assert(a.pos.deep_view()[1] == a.pos@[1].deep_view());
                assert(vrel(a.pos.deep_view()[1], g.pos[1]));
            }
            let text = a.pos[0].to_text_chars();
            match &a.pos[1] {
                TplValue::Text(sty) => {
                    let styv = chars_of_str(sty.as_str());
                    let toks = crate::style::style_tokens_chars(&styv);
                    let out = crate::style::apply_style_chars(&text, &toks);
                    Ok((TplValue::Text(out), true))
                },
                _ => Err(ctx_err("style expects a value and a text of style names")),
            }
        } else {
            proof {
                if a.pos@.len() == 2 {
                    assert(a.pos.deep_view()[1] == a.pos@[1].deep_view());
                    assert(vrel(a.pos.deep_view()[1], g.pos[1]));
                }
            }
            Err(ctx_err("style expects a value and a text of style names"))
        }
    } else if chars_eq_str(name, "join") {
        if a.pos.len() == 1 && is_list(&a.pos[0]) {
            proof {
                assert(a.pos.deep_view()[0] == a.pos@[0].deep_view());
                assert(vrel(a.pos.deep_view()[0], g.pos[0]));
                lemma_dict_get_rel(named_views(a.named@), g.named, g.styled, "sep"@);
            }
            let sep: Vec<char> = match named_lookup(&a.named, "sep") {
                Some(sv) => match sv {
                    TplValue::Text(ss) => chars_of_str(ss.as_str()),
                    _ => {
                        return Err(ctx_err("join expects its separator to be text"));
                    },
                },
                None => chars_of_str(","),
            };
            match &a.pos[0] {
                TplValue::List(items) => {
                    proof {
                        assert(items.deep_view().skip(0) =~= items.deep_view());
                        assert(crate::value::list_view(items) =~= items.deep_view());
                    }
                    let out = join_texts(items, 0, &sep);
                    Ok((TplValue::Text(crate::text::string_from_chars(&out)), a.styled))
                },
                _ => Err(ctx_err("join expects one sequence argument")),
            }
        } else {
            proof {
                if a.pos@.len() == 1 {
                    assert(a.pos.deep_view()[0] == a.pos@[0].deep_view());
                    assert(vrel(a.pos.deep_view()[0], g.pos[0]));
                }
            }
            Err(ctx_err("join expects one sequence argument"))
        }
    } else {
        Ok((TplValue::Text(String::new()), a.styled))
    }
}


/// The arguments starting at `i`, as `parse_args` says.
fn parse_args_x(t: &Vec<char>, i: usize, hi: usize, ctx: &TplValue, fuel: u64) -> (r: Result<
    Args,
    EvalErr,
>)
    requires
        i <= hi <= t@.len(),
    ensures
        ({
            let s = parse_args(t@, i as int, hi as int, ctx.deep_view(), fuel as nat);
            match r {
                Ok(a) => s matches Ok(g) && args_rel(a, g) && i <= a.end <= hi && (a.closed
                    ==> a.end < hi),
                Err(e) => s matches Err(ge) && e.deep_view() == ge,
            }
        }),
    decreases fuel,
{
    if fuel == 0 {
        return Err(syn_err(i, "expression too deeply nested"));
    }
    let k = crate::style::skip_ws_at(t, i, hi);
    if k >= hi {
        let a = Args { pos: Vec::new(), named: Vec::new(), styled: false, end: hi, closed: false };
        proof {
            assert(a.pos.deep_view() =~= Seq::<GVal>::empty());
            assert(named_views(a.named@) =~= Seq::<(Seq<char>, GVal)>::empty());
        }
        return Ok(a);
    }
    if t[k] == ')' {
        let a = Args { pos: Vec::new(), named: Vec::new(), styled: false, end: k, closed: true };
        proof {
            assert(a.pos.deep_view() =~= Seq::<GVal>::empty());
            assert(named_views(a.named@) =~= Seq::<(Seq<char>, GVal)>::empty());
        }
        return Ok(a);
    }
    match parse_one_x(t, k, hi, ctx, fuel - 1) {
        Err(e) => Err(e),
        Ok((key, v, st1, end1)) => match parse_args_x(t, end1, hi, ctx, fuel - 1) {
            Err(e) => Err(e),
            Ok(rest) => {
                let ghost gs = parse_args(
                    t@,
                    end1 as int,
                    hi as int,
                    ctx.deep_view(),
                    (fuel - 1) as nat,
                )->Ok_0;
                let styled = st1 || rest.styled;
                let end = rest.end;
                let closed = rest.closed;
                match key {
                    None => {
                        let ghost oldpos = rest.pos.deep_view();
                        let ghost gv = v.deep_view();
                        let mut pos = rest.pos;
                        pos.insert(0, v);
                        proof {
                            assert(pos.deep_view() =~= seq![gv] + oldpos);
                        }
                        let a = Args { pos, named: rest.named, styled, end, closed };
                        proof {
                            let g = parse_args(
                                t@,
                                i as int,
                                hi as int,
                                ctx.deep_view(),
                                fuel as nat,
                            )->Ok_0;
                            assert(g.pos.len() == a.pos.deep_view().len());
                            assert forall|ix: int|
                                0 <= ix < a.pos.deep_view().len() implies vrel(
                                a.pos.deep_view()[ix],
                                g.pos[ix],
                            ) by {
                                if ix > 0 {
                                    assert(a.pos.deep_view()[ix] == oldpos[ix - 1]);
                                    assert(g.pos[ix] == gs.pos[ix - 1]);
                                }
                            }
                            if !g.styled {
                                assert(a.pos.deep_view() =~= g.pos);
                                assert(named_views(a.named@) =~= g.named);
                            }
                        }
                        Ok(a)
                    },
                    Some(kk) => {
                        let ghost oldnamed = named_views(rest.named@);
                        let ghost gkk = kk@;
                        let ghost gv = v.deep_view();
                        let mut named = rest.named;
                        named.insert(0, (kk, v));
                        proof {
                            assert(named_views(named@) =~= seq![(gkk, gv)] + oldnamed);
                        }
                        let a = Args { pos: rest.pos, named, styled, end, closed };
                        proof {
                            let g = parse_args(
                                t@,
                                i as int,
                                hi as int,
                                ctx.deep_view(),
                                fuel as nat,
                            )->Ok_0;
                            assert(g.named.len() == named_views(a.named@).len());
                            assert forall|ix: int|
                                0 <= ix < named_views(a.named@).len() implies named_views(
                                a.named@,
                            )[ix].0 == g.named[ix].0 && vrel(
                                named_views(a.named@)[ix].1,
                                g.named[ix].1,
                            ) by {
                                if ix > 0 {
                                    assert(named_views(a.named@)[ix] == oldnamed[ix - 1]);
                                    assert(g.named[ix] == gs.named[ix - 1]);
                                }
                            }
                            if !g.styled {
                                assert(a.pos.deep_view() =~= g.pos);
                                assert(named_views(a.named@) =~= g.named);
                            }
                        }
                        Ok(a)
                    },
                }
            },
        },
    }
}

/// One argument starting at `i`, as `parse_one` says.
fn parse_one_x(t: &Vec<char>, i: usize, hi: usize, ctx: &TplValue, fuel: u64) -> (r: Result<
    (Option<Vec<char>>, TplValue, bool, usize),
    EvalErr,
>)
    requires
        i < hi <= t@.len(),
    ensures
        ({
            let s = parse_one(t@, i as int, hi as int, ctx.deep_view(), fuel as nat);
            match r {
                Ok((key, v, st, end)) => s matches Ok(g) && (match (key, g.0) {
                    (Some(kk), Some(gk)) => kk@ == gk,
                    (None, None) => true,
                    _ => false,
                }) && g.2 == st && vrel(v.deep_view(), g.1) && (!st ==> v.deep_view() == g.1)
                    && end as int == g.3 && i <= end <= hi,
                Err(e) => s matches Err(ge) && e.deep_view() == ge,
            }
        }),
    decreases fuel,
{
    if fuel == 0 {
        return Err(syn_err(i, "expression too deeply nested"));
    }
    let c = t[i];
    if is_digit(c) {
        let j = scan_digits_at(t, i, hi);
        if j < hi && !crate::style::is_ws(t[j]) && t[j] != ')' {
            Err(syn_err(j, "unexpected character in expression"))
        } else {
            Ok((None, TplValue::Num(digits_val_x(t, i, j, 0)), false, j))
        }
    } else if c == '"' {
        let j = find_quote_at(t, i + 1, hi);
        if j >= hi {
            Err(syn_err(i, "unterminated string literal"))
        } else {
            let lit = subvec(t, i + 1, j);
            Ok((None, TplValue::Text(crate::text::string_from_chars(&lit)), false, j + 1))
        }
    } else if c == '(' {
        match parse_call_x(t, i, hi, ctx, fuel - 1) {
            Err(e) => Err(e),
            Ok((v, st, end)) => Ok((None, v, st, end)),
        }
    } else if is_ident(c) {
        match parse_path_x(t, i, hi) {
            Err(p) => Err(syn_err(p, "unexpected character in expression")),
            Ok((segs, j)) => {
                proof {
                    assert(chars_views(segs@)[0] == segs@[0]@);
                }
                if segs.len() == 1 && j < hi && t[j] == '=' {
                    match parse_value_x(t, j + 1, hi, ctx, fuel - 1) {
                        Err(e) => Err(e),
                        Ok((v, st, end)) => {
                            let kk = subvec(&segs[0], 0, segs[0].len());
                            proof {
                                assert(kk@ =~= segs@[0]@);
                            }
                            Ok((Some(kk), v, st, end))
                        },
                    }
                } else {
                    let val = path_value_x(&segs, ctx);
                    Ok((None, val, false, j))
                }
            },
        }
    } else {
        Err(syn_err(i, "unexpected character in expression"))
    }
}

/// The value after a `key=`, as `parse_value` says.
fn parse_value_x(t: &Vec<char>, i: usize, hi: usize, ctx: &TplValue, fuel: u64) -> (r: Result<
    (TplValue, bool, usize),
    EvalErr,
>)
    requires
        i <= hi <= t@.len(),
    ensures
        ({
            let s = parse_value(t@, i as int, hi as int, ctx.deep_view(), fuel as nat);
            match r {
                Ok((v, st, end)) => s matches Ok(g) && g.1 == st && vrel(v.deep_view(), g.0) && (
                !st ==> v.deep_view() == g.0) && end as int == g.2 && i <= end <= hi,
                Err(e) => s matches Err(ge) && e.deep_view() == ge,
            }
        }),
    decreases fuel,
{
    if fuel == 0 {
        return Err(syn_err(i, "expression too deeply nested"));
    }
    if i >= hi {
        return Err(syn_err(i, "expected a value after `=`"));
    }
    match parse_one_x(t, i, hi, ctx, fuel - 1) {
        Err(e) => Err(e),
        Ok((key, v, st, end)) => match key {
            Some(_) => Err(syn_err(i, "expected a value after `=`")),
            None => Ok((v, st, end)),
        },
    }
}

/// A parenthesised helper call starting at the `(` at `i`, as `parse_call`
/// says.
fn parse_call_x(t: &Vec<char>, i: usize, hi: usize, ctx: &TplValue, fuel: u64) -> (r: Result<
    (TplValue, bool, usize),
    EvalErr,
>)
    requires
        i < hi <= t@.len(),
    ensures
        ({
            let s = parse_call(t@, i as int, hi as int, ctx.deep_view(), fuel as nat);
            match r {
                Ok((v, st, end)) => s matches Ok(g) && g.1 == st && vrel(v.deep_view(), g.0) && (
                !st ==> v.deep_view() == g.0) && end as int == g.2 && i <= end <= hi,
                Err(e) => s matches Err(ge) && e.deep_view() == ge,
            }
        }),
    decreases fuel,
{
    if fuel == 0 {
        return Err(syn_err(i, "expression too deeply nested"));
    }
    let k = crate::style::skip_ws_at(t, i + 1, hi);
    let j = scan_ident_at(t, k, hi);
    if k >= hi || j == k {
        return Err(syn_err(i, "expected a helper name after `(`"));
    }
    let name = subvec(t, k, j);
    match parse_args_x(t, j, hi, ctx, fuel - 1) {
        Err(e) => Err(e),
        Ok(a) => {
            if a.closed {
                let ghost gargs = parse_args(
                    t@,
                    j as int,
                    hi as int,
                    ctx.deep_view(),
                    (fuel - 1) as nat,
                )->Ok_0;
                let astyled = a.styled;
                let aend = a.end;
                match apply_helper_x(&name, a, Ghost(gargs)) {
                    Err(e) => Err(e),
                    Ok((v, st)) => Ok((v, st || astyled, aend + 1)),
                }
            } else {
                Err(syn_err(i, "unterminated subexpression"))
            }
        },
    }
}

/// The whole content of a tag, as `eval_tag` says.
fn eval_tag_x(t: &Vec<char>, lo: usize, hi: usize, ctx: &TplValue) -> (r: Result<
    (TplValue, bool),
    EvalErr,
>)
    requires
        lo <= hi <= t@.len(),
        t@.len() < 0x1000_0000_0000_0000,
    ensures
        val_res_rel(r, eval_tag(t@, lo as int, hi as int, ctx.deep_view())),
{
    let fuel: u64 = 4 * ((hi - lo) as u64) + 16;
    proof {
        assert(fuel as nat == tag_fuel(lo as int, hi as int));
    }
    let k = crate::style::skip_ws_at(t, lo, hi);
    if k >= hi {
        return Err(syn_err(lo, "empty expression"));
    }
    let c = t[k];
    if is_digit(c) || c == '"' || c == '(' {
        match parse_one_x(t, k, hi, ctx, fuel) {
            Err(e) => Err(e),
            Ok((_key, v, st, end)) => {
                let k2 = crate::style::skip_ws_at(t, end, hi);
                if k2 < hi {
                    Err(syn_err(k2, "unexpected character in expression"))
                } else {
                    Ok((v, st))
                }
            },
        }
    } else if is_ident(c) {
        match parse_path_x(t, k, hi) {
            Err(p) => Err(syn_err(p, "unexpected character in expression")),
            Ok((segs, j)) => {
                if j < hi && t[j] == '=' {
                    Err(syn_err(j, "unexpected character in expression"))
                } else {
                    match parse_args_x(t, j, hi, ctx, fuel) {
                        Err(e) => Err(e),
                        Ok(a) => {
                            if a.closed {
                                Err(syn_err(a.end, "unexpected character in expression"))
                            } else if a.pos.len() == 0 && a.named.len() == 0 {
                                proof {
                                    let g = parse_args(
                                        t@,
                                        j as int,
                                        hi as int,
                                        ctx.deep_view(),
                                        fuel as nat,
                                    )->Ok_0;
                                    assert(a.pos.deep_view().len() == 0);
                                    assert(named_views(a.named@).len() == 0);
                                    assert(g.pos.len() == 0 && g.named.len() == 0);
                                }
                                let val = path_value_x(&segs, ctx);
                                Ok((val, false))
                            } else if segs.len() == 1 {
                                let ghost gargs = parse_args(
                                    t@,
                                    j as int,
                                    hi as int,
                                    ctx.deep_view(),
                                    fuel as nat,
                                )->Ok_0;
                                proof {
                                    assert(chars_views(segs@)[0] == segs@[0]@);
                                    assert(gargs.pos.len() != 0 || gargs.named.len() != 0);
                                }
                                let name = subvec(&segs[0], 0, segs[0].len());
                                proof {
                                    assert(name@ =~= segs@[0]@);
                                }
                                let astyled = a.styled;
                                match apply_helper_x(&name, a, Ghost(gargs)) {
                                    Err(e) => Err(e),
                                    Ok((v, st)) => Ok((v, st || astyled)),
                                }
                            } else {
                                proof {
                                    let g = parse_args(
                                        t@,
                                        j as int,
                                        hi as int,
                                        ctx.deep_view(),
                                        fuel as nat,
                                    )->Ok_0;
                                    assert(g.pos.len() != 0 || g.named.len() != 0);
                                }
                                Ok((TplValue::Text(String::new()), a.styled))
                            }
                        },
                    }
                }
            },
        }
    } else {
        Err(syn_err(k, "unexpected character in expression"))
    }
}

/// The rendering of the template from position `i` on, as `eval_items` says.
fn eval_items_x(t: &Vec<char>, i: usize, ctx: &TplValue) -> (r: Result<(Vec<char>, bool), EvalErr>)
    requires
        i <= t@.len(),
        t@.len() < usize::MAX,
        t@.len() < 0x1000_0000_0000_0000,
    ensures
        ({
            let s = eval_items(t@, i as int, ctx.deep_view());
            match r {
                Ok((out, st)) => s matches Ok(g) && g.1 == st && (!st ==> out@ == g.0),
                Err(e) => s matches Err(ge) && e.deep_view() == ge,
            }
        }),
    decreases t@.len() - i,
{
    let n = t.len();
    let p = find_open_at(t, i);
    if p >= n {
        return Ok((subvec(t, i, n), false));
    }
    let mut out = subvec(t, i, p);
    if p + 2 < n && t[p + 2] == '#' {
        let q = find_close_at(t, p + 2);
        if q >= n {
            return Err(syn_err(p, "unterminated block"));
        }
        match skip_body_x(t, q + 2, 1) {
            None => Err(syn_err(p, "unterminated block")),
            Some(after) => {
                match eval_items_x(t, after, ctx) {
                    Err(e) => Err(e),
                    Ok((rest, st)) => {
                        crate::text::append_chars(&mut out, &rest);
                        proof {
                            if !st {
                                assert(out@ =~= t@.subrange(i as int, find_open(t@, i as int))
                                    + rest@);
                            }
                        }
                        Ok((out, st))
                    },
                }
            },
        }
    } else if p + 2 < n && t[p + 2] == '/' {
        Err(syn_err(p, "unexpected closing tag"))
    } else {
        let q = find_close_at(t, p + 2);
        if q >= n {
            return Err(syn_err(p, "unterminated expression"));
        }
        match eval_tag_x(t, p + 2, q, ctx) {
            Err(e) => Err(e),
            Ok((v, st1)) => match eval_items_x(t, q + 2, ctx) {
                Err(e) => Err(e),
                Ok((rest, st2)) => {
                    let vtext = v.to_text_chars();
                    crate::text::append_chars(&mut out, &vtext);
                    crate::text::append_chars(&mut out, &rest);
                    proof {
                        if !(st1 || st2) {
                            let s = eval_items(t@, i as int, ctx.deep_view());
                            let gv = eval_tag(
                                t@,
                                p + 2 as int,
                                q as int,
                                ctx.deep_view(),
                            )->Ok_0;
                            assert(out@ =~= t@.subrange(i as int, p as int) + scalar_text(gv.0)
                                + rest@);
                        }
                    }
                    Ok((out, st1 || st2))
                },
            },
        }
    }
}

/// What `render_chars` promises of its result: it is bound to the
/// interpreter's verdict on the template and context alone.
pub open spec fn render_post(t: Seq<char>, ctx: GVal, r: Result<(Vec<char>, bool), EvalErr>) -> bool {
    match r {
        Ok((out, st)) => render_spec(t, ctx) matches Ok(g) && g.1 == st && (!st ==> out@ == g.0),
        Err(e) => render_spec(t, ctx) matches Err(ge) && e.deep_view() == ge,
    }
}

/// Renders a template against a context: the output text and whether styling
/// ran, or the first failure, as `render_spec` says. Exact on templates whose
/// evaluation never styles; error behaviour exact always.
pub fn render_chars(t: &Vec<char>, ctx: &TplValue) -> (r: Result<(Vec<char>, bool), EvalErr>)
    requires
        t@.len() < usize::MAX,
        t@.len() < 0x1000_0000_0000_0000,
    ensures
        render_post(t@, ctx.deep_view(), r),
{
    eval_items_x(t, 0, ctx)
}

/// Rendering is pure: any two renders of one template against one context
/// succeed or fail together, agree on whether styling ran, yield the same
/// text whenever no styling ran, and report the same failure.
pub proof fn lemma_render_pure(
    t: Seq<char>,
    ctx: GVal,
    r1: Result<(Vec<char>, bool), EvalErr>,
    r2: Result<(Vec<char>, bool), EvalErr>,
)
    requires
        render_post(t, ctx, r1),
        render_post(t, ctx, r2),
    ensures
        r1 is Ok <==> r2 is Ok,
        r1 matches Ok((o1, st1)) ==> r2 matches Ok((o2, st2)) && st1 == st2 && (!st1 ==> o1@
            == o2@),
        r1 matches Err(e1) ==> r2 matches Err(e2) && e1.deep_view() == e2.deep_view(),
{
}

} // verus!
