//! The public rendering interface: a `Formatter` renders one template
//! against one session (and optionally one tab), returning the output text
//! or a `RenderError` with the 1-indexed position of a syntax error.

use vstd::prelude::*;

use crate::engine::{render_spec, EvalErr, GErr};
use crate::text::{chars_of_str, col_of, line_col, line_of, string_from_chars};
use crate::value::GVal;
use crate::views::{pane_count_of, session_ctx, session_ctx_spec, tab_ctx, tab_ctx_spec, SessionRec, TabRec};

verus! {

/// A rendering failure, as reported to callers.
#[derive(Debug)]
pub enum RenderError {
    /// Malformed template text, with the 1-indexed line and column of the
    /// offending token.
    TemplateSyntax { line: usize, col: usize, msg: String },
    /// A referenced helper could not be evaluated on its arguments.
    ContextError { msg: String },
    /// Division or modulo by zero in a numeric helper.
    ArithmeticError { msg: String },
    /// A tab's position is absent from the snapshot's pane index.
    DataPrecondition { msg: String },
}

/// The position index `at`, clamped into the template.
pub open spec fn clamp_at(t: Seq<char>, at: int) -> int {
    if at <= t.len() {
        at
    } else {
        t.len() as int
    }
}

/// Whether `e` reports the engine failure `ge` on template `t`: the same
/// kind and message, with a syntax position resolved to its 1-indexed line
/// and column.
pub open spec fn render_err_matches(e: RenderError, ge: GErr, t: Seq<char>) -> bool {
    match (e, ge) {
        (RenderError::TemplateSyntax { line, col, msg }, GErr::Syntax { at, msg: gm }) => msg@ == gm
            && line == line_of(t, clamp_at(t, at)) && col == col_of(t, clamp_at(t, at)),
        (RenderError::ContextError { msg }, GErr::Ctx { msg: gm }) => msg@ == gm,
        (RenderError::ArithmeticError { msg }, GErr::Arith { msg: gm }) => msg@ == gm,
        _ => false,
    }
}

/// The context a `format` call renders against, or `None` when the tab's
/// position is absent from the pane index.
pub open spec fn format_ctx_spec(s: SessionRec, tab: Option<TabRec>) -> Option<GVal> {
    match tab {
        None => Some(session_ctx_spec(s)),
        Some(tb) => match pane_count_of(s.pane_counts@, tb.position) {
            Some(pc) => Some(tab_ctx_spec(s, tb, pc)),
            None => None,
        },
    }
}

/// Resolves an engine failure to a caller-facing error, as
/// `render_err_matches` says.
pub(crate) fn err_to_render(e: EvalErr, t: &Vec<char>) -> (r: RenderError)
    requires
        t@.len() < usize::MAX,
    ensures
        render_err_matches(r, e.deep_view(), t@),
{
    match e {
        EvalErr::Syntax { at, msg } => {
            let at2 = if at <= t.len() {
                at
            } else {
                t.len()
            };
            let (line, col) = line_col(t, at2);
            RenderError::TemplateSyntax { line, col, msg }
        },
        EvalErr::Ctx { msg } => RenderError::ContextError { msg },
        EvalErr::Arith { msg } => RenderError::ArithmeticError { msg },
    }
}

/// The template renderer. The helper table is fixed: the arithmetic
/// helpers, `style`, `join`, and the catch-all that turns unknown helper
/// names into empty text.
#[derive(Default)]
pub struct Formatter {
}

impl Formatter {
    /// A renderer with the fixed helper set.
    pub fn new() -> (r: Formatter)
    {
        Formatter {  }
    }

    /// Renders `format` against `session` (and `tab`, when given). The
    /// output is pinned by the engine's interpreter whenever no `style`
    /// invocation ran; which error comes back is pinned always, and a tab
    /// position missing from the pane index is reported, never a crash.
    pub fn format(&self, format: &str, session: &SessionRec, tab: Option<&TabRec>) -> (r: Result<
        String,
        RenderError,
    >)
        requires
            format@.len() < usize::MAX,
            format@.len() < 0x1000_0000_0000_0000,
        ensures
            ({
                let gctx = format_ctx_spec(*session, match tab {
                    Some(tb) => Some(*tb),
                    None => None,
                });
                match gctx {
                    None => r matches Err(RenderError::DataPrecondition { msg })
                        && msg@ == "tab position missing from the pane index"@,
                    Some(ctx) => match render_spec(format@, ctx) {
                        Ok((out, styled)) => r is Ok && (!styled ==> r->Ok_0@ == out),
                        Err(ge) => r matches Err(e) && render_err_matches(e, ge, format@),
                    },
                }
            }),
    {
        let ctx = match tab {
            None => session_ctx(session),
            Some(tb) => {
                match session.pane_count_at(tb.position) {
                    Some(pc) => tab_ctx(session, tb, pc),
                    None => {
                        return Err(
                            RenderError::DataPrecondition {
                                msg: "tab position missing from the pane index".to_owned(),
                            },
                        );
                    },
                }
            },
        };
        let chars = chars_of_str(format);
        match crate::engine::render_chars(&chars, &ctx) {
            Ok((out, _styled)) => Ok(string_from_chars(&out)),
            Err(e) => Err(err_to_render(e, &chars)),
        }
    }
}


} // verus!
