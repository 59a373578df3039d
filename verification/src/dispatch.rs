//! Request dispatch: an incoming request names a mode (`list-sessions` or
//! `list-tabs`; anything else is silently dropped), may override the mode's
//! default template, and may restrict `list-tabs` to the current session.
//! Records are rendered in snapshot order, eagerly; the first failure aborts
//! the whole batch. On success the lines are joined with line breaks and a
//! trailing line break is appended; an empty snapshot produces no output at
//! all.

use vstd::prelude::*;

use crate::engine::{render_spec, EvalErr, GErr};
use crate::formatter::{err_to_render, render_err_matches, RenderError};
use crate::text::{chars_of_str, string_from_chars};
use crate::value::GVal;
use crate::views::{pane_count_of, session_ctx, session_ctx_spec, tab_ctx, tab_ctx_spec, SessionRec, Snapshot, TabRec};

verus! {

/// The two request modes.
#[derive(Clone, Copy, PartialEq, Eq, Structural, Debug)]
pub enum Mode {
    ListSessions,
    ListTabs,
}

/// Which mode a request name selects, if any.
pub open spec fn mode_of_name(n: Seq<char>) -> Option<Mode> {
    if n == "list-sessions"@ {
        Some(Mode::ListSessions)
    } else if n == "list-tabs"@ {
        Some(Mode::ListTabs)
    } else {
        None
    }
}

/// A mode's default template.
pub open spec fn default_format_spec(m: Mode) -> Seq<char> {
    match m {
        Mode::ListSessions => "{{session.name}}"@,
        Mode::ListTabs => "{{session.name}} - {{tab.name}}"@,
    }
}

impl Mode {
    /// The mode a request name selects, as `mode_of_name` says.
    pub fn from_pipe_name(name: &str) -> (r: Option<Mode>)
        ensures
            r == mode_of_name(name@),
    {
        let v = chars_of_str(name);
        if crate::text::chars_eq_str(&v, "list-sessions") {
            Some(Mode::ListSessions)
        } else if crate::text::chars_eq_str(&v, "list-tabs") {
            Some(Mode::ListTabs)
        } else {
            None
        }
    }

    /// The mode's default template, as `default_format_spec` says.
    pub fn default_format(&self) -> (r: &'static str)
        ensures
            r@ == default_format_spec(*self),
    {
        match self {
            Mode::ListSessions => "{{session.name}}",
            Mode::ListTabs => "{{session.name}} - {{tab.name}}",
        }
    }
}

/// The texts of a sequence of strings.
pub open spec fn strs_views(v: Seq<String>) -> Seq<Seq<char>> {
    Seq::new(
        v.len(),
        |i: int|
            if 0 <= i < v.len() {
                v[i]@
            } else {
                Seq::empty()
            },
    )
}

/// The lines from `k` on, joined with line breaks (no trailing break).
pub open spec fn cat_lines(lines: Seq<Seq<char>>, k: int) -> Seq<char>
    decreases lines.len() - k,
{
    if k < 0 || k >= lines.len() {
        Seq::empty()
    } else if k + 1 == lines.len() {
        lines[k]
    } else {
        lines[k] + seq!['\n'] + cat_lines(lines, k + 1)
    }
}

/// The outbound text of a successful batch: the lines joined, with a
/// trailing line break.
pub open spec fn output_text(lines: Seq<Seq<char>>) -> Seq<char> {
    cat_lines(lines, 0) + seq!['\n']
}

/// Why a batch failed: a record's render failed, or a tab position was
/// absent from the pane index.
pub ghost enum GBatchErr {
    Render(GErr),
    Pane,
}

/// The rendered lines of `list-sessions` from session `k` on: one per
/// session, in snapshot order, fail-fast.
pub open spec fn list_sessions_spec(ss: Seq<SessionRec>, t: Seq<char>, k: int) -> Result<
    (Seq<Seq<char>>, bool),
    GErr,
>
    decreases ss.len() - k,
{
    if k < 0 || k >= ss.len() {
        Ok((Seq::empty(), false))
    } else {
        match render_spec(t, session_ctx_spec(ss[k])) {
            Err(e) => Err(e),
            Ok((o, st)) => match list_sessions_spec(ss, t, k + 1) {
                Err(e) => Err(e),
                Ok((rest, st2)) => Ok((seq![o] + rest, st || st2)),
            },
        }
    }
}

/// The rendered lines of one session's tabs from tab `j` on, fail-fast; a
/// tab position absent from the pane index fails the batch.
pub open spec fn session_tabs_spec(s: SessionRec, t: Seq<char>, j: int) -> Result<
    (Seq<Seq<char>>, bool),
    GBatchErr,
>
    decreases s.tabs@.len() - j,
{
    if j < 0 || j >= s.tabs@.len() {
        Ok((Seq::empty(), false))
    } else {
        match pane_count_of(s.pane_counts@, s.tabs@[j].position) {
            None => Err(GBatchErr::Pane),
            Some(pc) => match render_spec(t, tab_ctx_spec(s, s.tabs@[j], pc)) {
                Err(e) => Err(GBatchErr::Render(e)),
                Ok((o, st)) => match session_tabs_spec(s, t, j + 1) {
                    Err(e) => Err(e),
                    Ok((rest, st2)) => Ok((seq![o] + rest, st || st2)),
                },
            },
        }
    }
}

/// The rendered lines of `list-tabs` from session `k` on: sessions in
/// snapshot order, tabs in their order; with `current_only`, sessions not
/// marked current are skipped entirely.
pub open spec fn list_tabs_spec(
    ss: Seq<SessionRec>,
    t: Seq<char>,
    current_only: bool,
    k: int,
) -> Result<(Seq<Seq<char>>, bool), GBatchErr>
    decreases ss.len() - k,
{
    if k < 0 || k >= ss.len() {
        Ok((Seq::empty(), false))
    } else if current_only && !ss[k].is_current_session {
        list_tabs_spec(ss, t, current_only, k + 1)
    } else {
        match session_tabs_spec(ss[k], t, 0) {
            Err(e) => Err(e),
            Ok((l1, s1)) => match list_tabs_spec(ss, t, current_only, k + 1) {
                Err(e) => Err(e),
                Ok((l2, s2)) => Ok((l1 + l2, s1 || s2)),
            },
        }
    }
}

/// What a request produces: nothing (an unknown name, or an empty
/// snapshot), the joined rendered lines, or the first failure.
pub enum RequestOutcome {
    Ignored,
    Rendered(String),
    Failed(RenderError),
}

impl Snapshot {
    /// The empty initial snapshot.
    pub fn new() -> (r: Snapshot)
        ensures
            r.sessions@.len() == 0,
    {
        Snapshot { sessions: Vec::new() }
    }

    /// Replaces the held state with a newly delivered one.
    pub fn replace(&mut self, sessions: Vec<SessionRec>)
        ensures
            final(self).sessions == sessions,
    {
        self.sessions = sessions;
    }
}

/// Renders template `t` once per session from `k` on, as
/// `list_sessions_spec` says: one line per session, in snapshot order,
/// fail-fast. The line texts are pinned when no styling ran; the line count
/// and order always.
pub fn list_sessions_x(ss: &Vec<SessionRec>, t: &Vec<char>, k: usize) -> (r: Result<
    (Vec<String>, bool),
    EvalErr,
>)
    requires
        k <= ss@.len(),
        t@.len() < usize::MAX,
        t@.len() < 0x1000_0000_0000_0000,
    ensures
        ({
            let s = list_sessions_spec(ss@, t@, k as int);
            match r {
                Ok((lines, st)) => s matches Ok(g) && g.1 == st && lines@.len() == g.0.len() && (
                !st ==> strs_views(lines@) == g.0),
                Err(e) => s matches Err(ge) && e.deep_view() == ge,
            }
        }),
    decreases ss@.len() - k,
{
    if k == ss.len() {
        let lines: Vec<String> = Vec::new();
        proof {
            assert(strs_views(lines@) =~= Seq::<Seq<char>>::empty());
        }
        return Ok((lines, false));
    }
    let ctx = session_ctx(&ss[k]);
    match crate::engine::render_chars(t, &ctx) {
        Err(e) => Err(e),
        Ok((o, st)) => match list_sessions_x(ss, t, k + 1) {
            Err(e) => Err(e),
            Ok((rest, st2)) => {
                let ghost grest = strs_views(rest@);
                let mut lines = rest;
                lines.insert(0, string_from_chars(&o));
                proof {
                    if !(st || st2) {
                        assert(strs_views(lines@) =~= seq![o@] + grest);
                    }
                }
                Ok((lines, st || st2))
            },
        },
    }
}

/// Renders template `t` once per tab of one session from `j` on, as
/// `session_tabs_spec` says.
fn session_tabs_x(s: &SessionRec, t: &Vec<char>, j: usize) -> (r: Result<
    (Vec<String>, bool),
    Result<EvalErr, ()>,
>)
    requires
        j <= s.tabs@.len(),
        t@.len() < usize::MAX,
        t@.len() < 0x1000_0000_0000_0000,
    ensures
        ({
            let g = session_tabs_spec(*s, t@, j as int);
            match r {
                Ok((lines, st)) => g matches Ok(gg) && gg.1 == st && lines@.len() == gg.0.len()
                    && (!st ==> strs_views(lines@) == gg.0),
                Err(Ok(e)) => g == Err::<(Seq<Seq<char>>, bool), GBatchErr>(
                    GBatchErr::Render(e.deep_view()),
                ),
                Err(Err(())) => g == Err::<(Seq<Seq<char>>, bool), GBatchErr>(GBatchErr::Pane),
            }
        }),
    decreases s.tabs@.len() - j,
{
    if j == s.tabs.len() {
        let lines: Vec<String> = Vec::new();
        proof {
            assert(strs_views(lines@) =~= Seq::<Seq<char>>::empty());
        }
        return Ok((lines, false));
    }
    match s.pane_count_at(s.tabs[j].position) {
        None => Err(Err(())),
        Some(pc) => {
            let ctx = tab_ctx(s, &s.tabs[j], pc);
            match crate::engine::render_chars(t, &ctx) {
                Err(e) => Err(Ok(e)),
                Ok((o, st)) => match session_tabs_x(s, t, j + 1) {
                    Err(e) => Err(e),
                    Ok((rest, st2)) => {
                        let ghost grest = strs_views(rest@);
                        let mut lines = rest;
                        lines.insert(0, string_from_chars(&o));
                        proof {
                            if !(st || st2) {
                                assert(strs_views(lines@) =~= seq![o@] + grest);
                            }
                        }
                        Ok((lines, st || st2))
                    },
                },
            }
        },
    }
}

/// Renders template `t` once per tab of each selected session from `k` on,
/// as `list_tabs_spec` says: sessions in snapshot order, tabs in their
/// order, non-current sessions skipped under `current_only`, fail-fast. The
/// line texts are pinned when no styling ran; the line count and order
/// always.
pub fn list_tabs_x(ss: &Vec<SessionRec>, t: &Vec<char>, current_only: bool, k: usize) -> (r: Result<
    (Vec<String>, bool),
    Result<EvalErr, ()>,
>)
    requires
        k <= ss@.len(),
        t@.len() < usize::MAX,
        t@.len() < 0x1000_0000_0000_0000,
    ensures
        ({
            let g = list_tabs_spec(ss@, t@, current_only, k as int);
            match r {
                Ok((lines, st)) => g matches Ok(gg) && gg.1 == st && lines@.len() == gg.0.len()
                    && (!st ==> strs_views(lines@) == gg.0),
                Err(Ok(e)) => g == Err::<(Seq<Seq<char>>, bool), GBatchErr>(
                    GBatchErr::Render(e.deep_view()),
                ),
                Err(Err(())) => g == Err::<(Seq<Seq<char>>, bool), GBatchErr>(GBatchErr::Pane),
            }
        }),
    decreases ss@.len() - k,
{
    if k == ss.len() {
        let lines: Vec<String> = Vec::new();
        proof {
            assert(strs_views(lines@) =~= Seq::<Seq<char>>::empty());
        }
        return Ok((lines, false));
    }
    if current_only && !ss[k].is_current_session {
        return list_tabs_x(ss, t, current_only, k + 1);
    }
    match session_tabs_x(&ss[k], t, 0) {
        Err(e) => Err(e),
        Ok((l1, s1)) => match list_tabs_x(ss, t, current_only, k + 1) {
            Err(e) => Err(e),
            Ok((l2, s2)) => {
                let ghost g1 = strs_views(l1@);
                let ghost g2 = strs_views(l2@);
                let mut lines = l1;
                let n2 = l2.len();
                let mut i: usize = 0;
                let ghost n1 = lines@.len();
                while i < n2
                    invariant
                        i <= n2 == l2@.len(),
                        lines@.len() == n1 + i,
                        forall|x: int| 0 <= x < n1 ==> lines@[x] == l1@[x],
                        forall|x: int| 0 <= x < i ==> lines@[n1 + x]@ == l2@[x]@,
                        l1@.len() == n1,
                    decreases n2 - i,
                {
                    let piece = crate::text::string_from_chars(&chars_of_str(l2[i].as_str()));
                    lines.push(piece);
                    i = i + 1;
                }
                proof {
                    if !(s1 || s2) {
                        assert(strs_views(lines@) =~= g1 + g2);
                    }
                }
                Ok((lines, s1 || s2))
            },
        },
    }
}


fn cat_lines_x(lines: &Vec<String>, k: usize) -> (r: Vec<char>)
    requires
        k <= lines@.len(),
    ensures
        r@ == cat_lines(strs_views(lines@), k as int),
    decreases lines@.len() - k,
{
    proof {
        assert(strs_views(lines@).len() == lines@.len());
    }
    if k == lines.len() {
        Vec::new()
    } else {
        let mut out = chars_of_str(lines[k].as_str());
        proof {
            assert(strs_views(lines@)[k as int] == lines@[k as int]@);
        }
        if k + 1 == lines.len() {
            out
        } else {
            out.push('\n');
            let rest = cat_lines_x(lines, k + 1);
            crate::text::append_chars(&mut out, &rest);
            proof {
                assert(out@ =~= strs_views(lines@)[k as int] + seq!['\n'] + cat_lines(
                    strs_views(lines@),
                    k + 1,
                ));
            }
            out
        }
    }
}

/// Handles one request against the held snapshot: selects the mode, resolves
/// the template (the payload overrides the mode's default), renders every
/// relevant record fail-fast, and joins the lines with a trailing line
/// break. A request whose name selects no mode, or an empty snapshot,
/// produces nothing at all.
pub fn run_request(
    snapshot: &Snapshot,
    name: &str,
    payload: Option<&str>,
    current_session_only: bool,
) -> (r: RequestOutcome)
    requires
        payload matches Some(p) ==> p@.len() < usize::MAX && p@.len() < 0x1000_0000_0000_0000,
    ensures
        ({
            let m = mode_of_name(name@);
            let ignored = m is None || snapshot.sessions@.len() == 0;
            &&& (r is Ignored <==> ignored)
            &&& (!ignored ==> {
                let tpl = match payload {
                    Some(p) => p@,
                    None => default_format_spec(m->0),
                };
                match m->0 {
                    Mode::ListSessions => match list_sessions_spec(snapshot.sessions@, tpl, 0) {
                        Ok((lines, styled)) => r matches RequestOutcome::Rendered(out) && (!styled
                            ==> out@ == output_text(lines)),
                        Err(ge) => r matches RequestOutcome::Failed(e) && render_err_matches(
                            e,
                            ge,
                            tpl,
                        ),
                    },
                    Mode::ListTabs => match list_tabs_spec(
                        snapshot.sessions@,
                        tpl,
                        current_session_only,
                        0,
                    ) {
                        Ok((lines, styled)) => r matches RequestOutcome::Rendered(out) && (!styled
                            ==> out@ == output_text(lines)),
                        Err(GBatchErr::Render(ge)) => r matches RequestOutcome::Failed(e)
                            && render_err_matches(e, ge, tpl),
                        Err(GBatchErr::Pane) => r matches RequestOutcome::Failed(
                            RenderError::DataPrecondition { msg },
                        ) && msg@ == "tab position missing from the pane index"@,
                    },
                }
            })
        }),
{
    if snapshot.sessions.len() == 0 {
        return RequestOutcome::Ignored;
    }
    let mode = match Mode::from_pipe_name(name) {
        None => {
            return RequestOutcome::Ignored;
        },
        Some(m) => m,
    };
    let tpl: &str = match payload {
        Some(p) => p,
        None => mode.default_format(),
    };
    proof {
        if payload is None {
            reveal_strlit("{{session.name}}");
            reveal_strlit("{{session.name}} - {{tab.name}}");
        }
    }
    let chars = chars_of_str(tpl);
    match mode {
        Mode::ListSessions => match list_sessions_x(&snapshot.sessions, &chars, 0) {
            Err(e) => RequestOutcome::Failed(err_to_render(e, &chars)),
            Ok((lines, _styled)) => {
                let mut out = cat_lines_x(&lines, 0);
                out.push('\n');
                RequestOutcome::Rendered(string_from_chars(&out))
            },
        },
        Mode::ListTabs => match list_tabs_x(&snapshot.sessions, &chars, current_session_only, 0) {
            Err(Err(())) => RequestOutcome::Failed(
                RenderError::DataPrecondition {
                    msg: "tab position missing from the pane index".to_owned(),
                },
            ),
            Err(Ok(e)) => RequestOutcome::Failed(err_to_render(e, &chars)),
            Ok((lines, _styled)) => {
                let mut out = cat_lines_x(&lines, 0);
                out.push('\n');
                RequestOutcome::Rendered(string_from_chars(&out))
            },
        },
    }
}


/// Rendering the default session template against one session's context
/// yields exactly the session's name, and never styles.
pub proof fn lemma_default_session_render(s: SessionRec)
    ensures
        render_spec("{{session.name}}"@, session_ctx_spec(s)) == Ok::<(Seq<char>, bool), GErr>(
            (s.name@, false),
        ),
{
    reveal_strlit("{{session.name}}");
    reveal_strlit("session");
    reveal_strlit("name");
    reveal_strlit("true");
    reveal_strlit("false");
    let t = "{{session.name}}"@;
    let ctx = session_ctx_spec(s);
    assert(t.len() == 16);
    assert(crate::engine::find_open(t, 0) == 0);
    reveal_with_fuel(crate::engine::find_close, 16);
    assert(crate::engine::find_close(t, 2) == 14);
    reveal_with_fuel(crate::engine::scan_ident_end, 16);
    assert(crate::engine::scan_ident_end(t, 2, 14) == 9);
    assert(crate::engine::scan_ident_end(t, 10, 14) == 14);
    assert(t.subrange(2, 9) =~= "session"@);
    assert(t.subrange(10, 14) =~= "name"@);
    reveal_with_fuel(crate::engine::parse_path, 3);
    let segs = seq!["session"@, "name"@];
    assert(crate::engine::parse_path(t, 2, 14) == Ok::<(Seq<Seq<char>>, int), int>((segs, 14)))
        by {
        assert(crate::engine::parse_path(t, 10, 14) == Ok::<(Seq<Seq<char>>, int), int>(
            (seq!["name"@], 14),
        ));
        assert(seq!["session"@] + seq!["name"@] =~= segs);
    }
    assert(crate::engine::skip_ws(t, 2, 14) == 2);
    assert(crate::engine::skip_ws(t, 14, 14) == 14);
    let fuel = crate::engine::tag_fuel(2, 14);
    assert(fuel == 64);
    let ga = crate::engine::parse_args(t, 14, 14, ctx, fuel);
    assert(ga matches Ok(a) && a.pos.len() == 0 && a.named.len() == 0 && !a.closed && !a.styled);
    assert(segs[0] != "true"@ && segs[0] != "false"@);
    reveal_with_fuel(crate::value::lookup_spec, 4);
    let sv = crate::views::session_view_spec(s);
    assert(crate::value::dict_get(ctx->Dict_0, "session"@) == Some(sv));
    assert(crate::value::dict_get(sv->Dict_0, "name"@) == Some(GVal::Text(s.name@)));
    assert(segs.drop_first() =~= seq!["name"@]);
    assert(seq!["name"@].drop_first() =~= Seq::<Seq<char>>::empty());
    assert(crate::value::lookup_spec(ctx, segs) == GVal::Text(s.name@));
    assert(crate::engine::path_value(segs, ctx) == GVal::Text(s.name@));
    assert(crate::engine::eval_tag(t, 2, 14, ctx) == Ok::<(GVal, bool), GErr>(
        (GVal::Text(s.name@), false),
    ));
    reveal_with_fuel(crate::engine::eval_items, 3);
    assert(crate::engine::find_open(t, 16) == 16);
    assert(crate::engine::eval_items(t, 16, ctx) == Ok::<(Seq<char>, bool), GErr>(
        (t.subrange(16, 16), false),
    ));
    assert(crate::engine::eval_items(t, 0, ctx) == Ok::<(Seq<char>, bool), GErr>(
        (t.subrange(0, 0) + crate::value::scalar_text(GVal::Text(s.name@)) + t.subrange(16, 16),
        false),
    ));
    assert(t.subrange(0, 0) + crate::value::scalar_text(GVal::Text(s.name@)) + t.subrange(16, 16)
        =~= s.name@);
}

/// The default `list-sessions` batch from session `k` on: one line per
/// session, each exactly the session's name, in snapshot order, unstyled.
pub proof fn lemma_default_list_sessions(ss: Seq<SessionRec>, k: int)
    requires
        0 <= k <= ss.len(),
    ensures
        ({
            let r = list_sessions_spec(ss, "{{session.name}}"@, k);
            &&& r is Ok
            &&& !r->Ok_0.1
            &&& r->Ok_0.0.len() == ss.len() - k
            &&& forall|i: int| 0 <= i < ss.len() - k ==> r->Ok_0.0[i] == ss[k + i].name@
        }),
    decreases ss.len() - k,
{
    if k == ss.len() {
    } else {
        lemma_default_session_render(ss[k]);
        lemma_default_list_sessions(ss, k + 1);
        let rest = list_sessions_spec(ss, "{{session.name}}"@, k + 1);
        assert forall|i: int| 0 <= i < ss.len() - k implies (seq![ss[k].name@]
            + rest->Ok_0.0)[i] == ss[k + i].name@ by {
            if i > 0 {
                assert((seq![ss[k].name@] + rest->Ok_0.0)[i] == rest->Ok_0.0[i - 1]);
            }
        }
    }
}

} // verus!
