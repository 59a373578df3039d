use sessionlist::dispatch::{run_request, Mode, RequestOutcome};
use sessionlist::engine::render_chars;
use sessionlist::formatter::{Formatter, RenderError};
use sessionlist::report::{diagnostic_text, Decorations};
use sessionlist::text::chars_of_str;
use sessionlist::value::TplValue;
use sessionlist::views::{SessionRec, Snapshot, TabRec};

fn session(name: &str, current: bool, tabs: Vec<TabRec>, pane_counts: Vec<(usize, usize)>) -> SessionRec {
    SessionRec {
        name: name.to_owned(),
        connected_clients: 2,
        is_current_session: current,
        web_clients_allowed: false,
        web_client_count: 0,
        tabs,
        pane_counts,
    }
}

fn tab(name: &str, position: usize) -> TabRec {
    TabRec {
        position,
        name: name.to_owned(),
        active: position == 0,
        is_fullscreen_active: false,
        is_sync_panes_active: false,
        are_floating_panes_visible: false,
        is_swap_layout_dirty: false,
        viewport_rows: 40,
        viewport_columns: 120,
        display_area_rows: 41,
        display_area_columns: 121,
        selectable_tiled_panes_count: 3,
        selectable_floating_panes_count: 1,
    }
}

fn fmt(template: &str) -> Result<String, RenderError> {
    let f = Formatter::new();
    let s = session("alpha", true, vec![tab("t1", 0)], vec![(0, 4)]);
    f.format(template, &s, None)
}

fn render_with(template: &str, ctx: &TplValue) -> Result<String, String> {
    let chars = chars_of_str(template);
    match render_chars(&chars, ctx) {
        Ok((out, _styled)) => Ok(out.iter().collect()),
        Err(e) => Err(format!("{:?}", match e {
            sessionlist::engine::EvalErr::Syntax { at, msg } => (at, msg),
            sessionlist::engine::EvalErr::Ctx { msg } => (0, msg),
            sessionlist::engine::EvalErr::Arith { msg } => (0, msg),
        })),
    }
}

#[test]
fn arithmetic_helpers() {
    assert_eq!(fmt("{{add 2 3}}").unwrap(), "5");
    assert_eq!(fmt("{{sub 5 2}}").unwrap(), "3");
    assert_eq!(fmt("{{mul 2 3}}").unwrap(), "6");
    assert_eq!(fmt("{{div 6 3}}").unwrap(), "2");
    assert_eq!(fmt("{{mod 7 3}}").unwrap(), "1");
}

#[test]
fn division_by_zero_is_an_error_not_a_crash() {
    match fmt("{{div 5 0}}") {
        Err(RenderError::ArithmeticError { msg }) => assert_eq!(msg, "division by zero"),
        other => panic!("expected an arithmetic error, got {:?}", other.map_err(|_| ())),
    }
    match fmt("{{mod 5 0}}") {
        Err(RenderError::ArithmeticError { msg }) => assert_eq!(msg, "modulo by zero"),
        other => panic!("expected an arithmetic error, got {:?}", other.map_err(|_| ())),
    }
}

#[test]
fn arithmetic_saturates() {
    assert_eq!(fmt("{{sub 2 5}}").unwrap(), "0");
    assert_eq!(
        fmt("{{add 18446744073709551615 1}}").unwrap(),
        "18446744073709551615"
    );
}

#[test]
fn nested_helper_calls() {
    assert_eq!(fmt("{{add (mul 2 3) 1}}").unwrap(), "7");
}

fn list_ctx(items: Vec<&str>) -> TplValue {
    TplValue::Dict(vec![(
        "xs".to_owned(),
        TplValue::List(items.into_iter().map(|s| TplValue::Text(s.to_owned())).collect()),
    )])
}

#[test]
fn join_with_default_separator() {
    let ctx = list_ctx(vec!["a", "b", "c"]);
    assert_eq!(render_with("{{join xs}}", &ctx).unwrap(), "a,b,c");
}

#[test]
fn join_with_named_separator() {
    let ctx = list_ctx(vec!["a", "b"]);
    assert_eq!(render_with("{{join xs sep=\"-\"}}", &ctx).unwrap(), "a-b");
}

#[test]
fn join_of_empty_sequence_is_empty() {
    let ctx = list_ctx(vec![]);
    assert_eq!(render_with("{{join xs}}", &ctx).unwrap(), "");
}

#[test]
fn style_rewrites_bright_underscore() {
    colored::control::set_override(true);
    assert_eq!(fmt("{{style \"x\" \"bright_red\"}}").unwrap(), "\x1b[91mx\x1b[0m");
}

#[test]
fn style_applies_attributes_and_backgrounds() {
    colored::control::set_override(true);
    assert_eq!(fmt("{{style \"x\" \"bold\"}}").unwrap(), "\x1b[1mx\x1b[0m");
    assert_eq!(fmt("{{style \"x\" \"on_bright_red\"}}").unwrap(), "\x1b[101mx\x1b[0m");
    assert_eq!(fmt("{{style \"x\" \"bold,red\"}}").unwrap(), "\x1b[1;31mx\x1b[0m");
}

#[test]
fn colour_names_match_case_insensitively() {
    colored::control::set_override(true);
    assert_eq!(fmt("{{style \"x\" \"RED\"}}").unwrap(), "\x1b[31mx\x1b[0m");
    // hex colours go through the backend's truecolor support, whose exact
    // escape depends on the terminal environment: check that the uppercase
    // hex form was recognised and styled at all
    let hex = fmt("{{style \"x\" \"#FF0000\"}}").unwrap();
    assert!(hex.starts_with("\x1b["));
    assert!(hex.contains('x'));
}

#[test]
fn repeated_attributes_and_colours_fold_to_a_net_plan() {
    colored::control::set_override(true);
    assert_eq!(fmt("{{style \"x\" \"bold,bold\"}}").unwrap(), "\x1b[1mx\x1b[0m");
    assert_eq!(fmt("{{style \"x\" \"red,blue\"}}").unwrap(), "\x1b[34mx\x1b[0m");
    assert_eq!(fmt("{{style \"x\" \"red,bold\"}}").unwrap(), "\x1b[1;31mx\x1b[0m");
}

#[test]
fn unknown_style_tokens_are_ignored() {
    colored::control::set_override(true);
    assert_eq!(fmt("{{style \"x\" \"sparkly\"}}").unwrap(), "x");
}

#[test]
fn render_is_pure() {
    let f = Formatter::new();
    let s = session("alpha", true, vec![tab("t1", 0)], vec![(0, 4)]);
    let a = f.format("{{session.name}} {{add 1 2}}", &s, None);
    let b = f.format("{{session.name}} {{add 1 2}}", &s, None);
    assert_eq!(a.unwrap(), b.unwrap());
    let c = f.format("{{#x}}", &s, None);
    let d = f.format("{{#x}}", &s, None);
    assert_eq!(format!("{:?}", c.is_err()), format!("{:?}", d.is_err()));
}

#[test]
fn default_list_sessions_is_one_name_per_line() {
    let mut snap = Snapshot::new();
    snap.replace(vec![
        session("alpha", false, vec![], vec![]),
        session("beta", true, vec![], vec![]),
    ]);
    match run_request(&snap, "list-sessions", None, false) {
        RequestOutcome::Rendered(out) => assert_eq!(out, "alpha\nbeta\n"),
        _ => panic!("expected rendered output"),
    }
}

#[test]
fn current_session_flag_restricts_list_tabs() {
    let mut snap = Snapshot::new();
    snap.replace(vec![
        session("A", false, vec![tab("t1", 0)], vec![(0, 1)]),
        session("B", true, vec![tab("t2", 0)], vec![(0, 1)]),
    ]);
    match run_request(&snap, "list-tabs", None, true) {
        RequestOutcome::Rendered(out) => assert_eq!(out, "B - t2\n"),
        _ => panic!("expected rendered output"),
    }
}

#[test]
fn list_tabs_covers_all_sessions_without_the_flag() {
    let mut snap = Snapshot::new();
    snap.replace(vec![
        session("A", false, vec![tab("t1", 0)], vec![(0, 1)]),
        session("B", true, vec![tab("t2", 0)], vec![(0, 1)]),
    ]);
    match run_request(&snap, "list-tabs", None, false) {
        RequestOutcome::Rendered(out) => assert_eq!(out, "A - t1\nB - t2\n"),
        _ => panic!("expected rendered output"),
    }
}

#[test]
fn unknown_request_names_are_ignored() {
    let mut snap = Snapshot::new();
    snap.replace(vec![session("alpha", true, vec![], vec![])]);
    assert!(matches!(
        run_request(&snap, "list-something-else", None, false),
        RequestOutcome::Ignored
    ));
}

#[test]
fn empty_snapshot_produces_nothing() {
    let snap = Snapshot::new();
    assert!(matches!(
        run_request(&snap, "list-sessions", None, false),
        RequestOutcome::Ignored
    ));
}

#[test]
fn unterminated_block_reports_its_start() {
    match fmt("abc {{#x}}") {
        Err(RenderError::TemplateSyntax { line, col, msg }) => {
            assert_eq!(line, 1);
            assert_eq!(col, 5);
            assert_eq!(msg, "unterminated block");
        },
        other => panic!("expected a syntax error, got {:?}", other.map_err(|_| ())),
    }
}

#[test]
fn diagnostic_has_column_minus_one_spaces_before_the_caret() {
    let e = RenderError::TemplateSyntax {
        line: 1,
        col: 5,
        msg: "unterminated block".to_owned(),
    };
    let t = chars_of_str("abc {{#x}}");
    let d = diagnostic_text(&t, &e, &Decorations::plain());
    assert_eq!(
        d,
        "error: unterminated block\n  --> Format error in 1:5\n   |\n 1 | abc {{#x}}\n   |     ^\n"
    );
}

#[test]
fn diagnostic_without_position_is_kind_and_message() {
    let e = RenderError::ArithmeticError { msg: "division by zero".to_owned() };
    let t = chars_of_str("{{div 1 0}}");
    let d = diagnostic_text(&t, &e, &Decorations::plain());
    assert_eq!(d, "error: division by zero\n");
}

#[test]
fn diagnostic_clamps_out_of_range_positions() {
    let e = RenderError::TemplateSyntax { line: 9, col: 0, msg: "m".to_owned() };
    let t = chars_of_str("ab");
    let d = diagnostic_text(&t, &e, &Decorations::plain());
    assert_eq!(d, "error: m\n  --> Format error in 9:0\n   |\n 9 | \n   | ^\n");
}

#[test]
fn missing_pane_entry_is_a_recoverable_error() {
    let f = Formatter::new();
    let s = session("alpha", true, vec![tab("t1", 3)], vec![(0, 1)]);
    let t = tab("t1", 3);
    match f.format("{{tab.name}}", &s, Some(&t)) {
        Err(RenderError::DataPrecondition { .. }) => {},
        other => panic!("expected a data precondition error, got {:?}", other.map_err(|_| ())),
    }
}

#[test]
fn tab_and_session_fields_render() {
    let f = Formatter::new();
    let s = session("alpha", true, vec![tab("t1", 0), tab("t2", 1)], vec![(0, 4), (1, 2)]);
    let t = tab("t2", 1);
    let out = f
        .format(
            "{{session.name}}:{{session.tab_count}}:{{tab.name}}:{{tab.pane_count}}:{{tab.active}}",
            &s,
            Some(&t),
        )
        .unwrap();
    assert_eq!(out, "alpha:2:t2:2:false");
}

#[test]
fn absent_paths_render_as_empty_text() {
    assert_eq!(fmt("a{{session.nope}}b{{nope.deep}}c").unwrap(), "abc");
    assert_eq!(fmt("{{missing}}").unwrap(), "");
}

#[test]
fn unknown_helpers_degrade_to_empty_text() {
    assert_eq!(fmt("a{{frobnicate 1 2}}b").unwrap(), "ab");
    assert_eq!(fmt("a{{#each xs}}ignored{{/each}}b").unwrap(), "ab");
}

#[test]
fn literals_and_booleans_render() {
    assert_eq!(fmt("{{5}}").unwrap(), "5");
    assert_eq!(fmt("{{\"hi\"}}").unwrap(), "hi");
    assert_eq!(fmt("{{true}}").unwrap(), "true");
    assert_eq!(fmt("{{session.is_current_session}}").unwrap(), "true");
}

#[test]
fn malformed_helper_arguments_are_context_errors() {
    assert!(matches!(fmt("{{add 1}}"), Err(RenderError::ContextError { .. })));
    assert!(matches!(fmt("{{add \"a\" 1}}"), Err(RenderError::ContextError { .. })));
    assert!(matches!(fmt("{{join 5}}"), Err(RenderError::ContextError { .. })));
}

#[test]
fn unterminated_expression_is_a_syntax_error() {
    match fmt("ab {{session.name") {
        Err(RenderError::TemplateSyntax { line, col, msg }) => {
            assert_eq!((line, col), (1, 4));
            assert_eq!(msg, "unterminated expression");
        },
        other => panic!("expected a syntax error, got {:?}", other.map_err(|_| ())),
    }
}

#[test]
fn stray_closing_tag_is_a_syntax_error() {
    assert!(matches!(fmt("{{/x}}"), Err(RenderError::TemplateSyntax { .. })));
}

#[test]
fn positions_count_lines() {
    match fmt("ok\n{{add 1 }") {
        Err(RenderError::TemplateSyntax { line, col, .. }) => assert_eq!((line, col), (2, 1)),
        other => panic!("expected a syntax error, got {:?}", other.map_err(|_| ())),
    }
}

#[test]
fn mode_selection() {
    assert_eq!(Mode::from_pipe_name("list-sessions"), Some(Mode::ListSessions));
    assert_eq!(Mode::from_pipe_name("list-tabs"), Some(Mode::ListTabs));
    assert_eq!(Mode::from_pipe_name("list-panes"), None);
    assert_eq!(Mode::ListSessions.default_format(), "{{session.name}}");
    assert_eq!(Mode::ListTabs.default_format(), "{{session.name}} - {{tab.name}}");
}

#[test]
fn payload_overrides_the_default_template() {
    let mut snap = Snapshot::new();
    snap.replace(vec![session("alpha", true, vec![], vec![])]);
    match run_request(&snap, "list-sessions", Some("[{{session.name}}]"), false) {
        RequestOutcome::Rendered(out) => assert_eq!(out, "[alpha]\n"),
        _ => panic!("expected rendered output"),
    }
}

#[test]
fn batch_failure_aborts_the_whole_batch() {
    let mut snap = Snapshot::new();
    snap.replace(vec![
        session("alpha", true, vec![], vec![]),
        session("beta", true, vec![], vec![]),
    ]);
    match run_request(&snap, "list-sessions", Some("{{div 1 0}}"), false) {
        RequestOutcome::Failed(RenderError::ArithmeticError { .. }) => {},
        _ => panic!("expected the batch to fail"),
    }
}
