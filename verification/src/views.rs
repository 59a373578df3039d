//! Render-ready views of the session snapshot: a session record carries its
//! tabs and a position-indexed pane count table; the context builders shape
//! them into the mapping values that templates resolve paths against.

use vstd::prelude::*;

use crate::value::{GVal, TplValue};

verus! {

/// One tab of a session, with the derived fields templates read.
pub struct TabRec {
    pub position: usize,
    pub name: String,
    pub active: bool,
    pub is_fullscreen_active: bool,
    pub is_sync_panes_active: bool,
    pub are_floating_panes_visible: bool,
    pub is_swap_layout_dirty: bool,
    pub viewport_rows: usize,
    pub viewport_columns: usize,
    pub display_area_rows: usize,
    pub display_area_columns: usize,
    pub selectable_tiled_panes_count: usize,
    pub selectable_floating_panes_count: usize,
}

/// One session of the snapshot: its fields, its tabs in order, and the
/// number of panes at each tab position.
pub struct SessionRec {
    pub name: String,
    pub connected_clients: usize,
    pub is_current_session: bool,
    pub web_clients_allowed: bool,
    pub web_client_count: usize,
    pub tabs: Vec<TabRec>,
    pub pane_counts: Vec<(usize, usize)>,
}

/// The latest known state: the sessions, in arrival order.
pub struct Snapshot {
    pub sessions: Vec<SessionRec>,
}

/// The mapping a session renders as. `tab_count` is the number of tabs the
/// session carries.
pub open spec fn session_view_spec(s: SessionRec) -> GVal {
    GVal::Dict(
        seq![
            ("name"@, GVal::Text(s.name@)),
            ("connected_clients"@, GVal::Num(s.connected_clients as u64)),
            ("is_current_session"@, GVal::Bool(s.is_current_session)),
            ("web_clients_allowed"@, GVal::Bool(s.web_clients_allowed)),
            ("web_client_count"@, GVal::Num(s.web_client_count as u64)),
            ("tab_count"@, GVal::Num(s.tabs@.len() as u64)),
        ],
    )
}

/// The mapping a tab renders as; `pane_count` is the number of panes at the
/// tab's position in the snapshot's pane index.
pub open spec fn tab_view_spec(t: TabRec, pane_count: u64) -> GVal {
    GVal::Dict(
        seq![
            ("position"@, GVal::Num(t.position as u64)),
            ("name"@, GVal::Text(t.name@)),
            ("active"@, GVal::Bool(t.active)),
            ("is_fullscreen_active"@, GVal::Bool(t.is_fullscreen_active)),
            ("is_sync_panes_active"@, GVal::Bool(t.is_sync_panes_active)),
            ("are_floating_panes_visible"@, GVal::Bool(t.are_floating_panes_visible)),
            ("is_swap_layout_dirty"@, GVal::Bool(t.is_swap_layout_dirty)),
            ("viewport_rows"@, GVal::Num(t.viewport_rows as u64)),
            ("viewport_columns"@, GVal::Num(t.viewport_columns as u64)),
            ("display_area_rows"@, GVal::Num(t.display_area_rows as u64)),
            ("display_area_columns"@, GVal::Num(t.display_area_columns as u64)),
            ("selectable_tiled_panes_count"@, GVal::Num(t.selectable_tiled_panes_count as u64)),
            (
                "selectable_floating_panes_count"@,
                GVal::Num(t.selectable_floating_panes_count as u64),
            ),
            ("pane_count"@, GVal::Num(pane_count)),
        ],
    )
}

/// The render context of a per-session record: `session` alone.
pub open spec fn session_ctx_spec(s: SessionRec) -> GVal {
    GVal::Dict(seq![("session"@, session_view_spec(s))])
}

/// The render context of a per-tab record: `session` and `tab`.
pub open spec fn tab_ctx_spec(s: SessionRec, t: TabRec, pane_count: u64) -> GVal {
    GVal::Dict(seq![("session"@, session_view_spec(s)), ("tab"@, tab_view_spec(t, pane_count))])
}

/// The pane count recorded for `position`, if any (first entry wins).
pub open spec fn pane_count_of(panes: Seq<(usize, usize)>, position: usize) -> Option<u64>
    decreases panes.len(),
{
    if panes.len() == 0 {
        None
    } else if panes[0].0 == position {
        Some(panes[0].1 as u64)
    } else {
        pane_count_of(panes.drop_first(), position)
    }
}

fn key_entry(k: &str, v: TplValue) -> (r: (String, TplValue))
    ensures
        r.0@ == k@,
        r.1 == v,
{
    (k.to_owned(), v)
}

impl SessionRec {
    /// The pane count at `position`, as `pane_count_of` says.
    pub fn pane_count_at(&self, position: usize) -> (r: Option<u64>)
        ensures
            r == pane_count_of(self.pane_counts@, position),
    {
        let n = self.pane_counts.len();
        let mut i: usize = 0;
        proof {
            assert(self.pane_counts@.skip(0) =~= self.pane_counts@);
        }
        while i < n
            invariant
                i <= n == self.pane_counts@.len(),
                pane_count_of(self.pane_counts@, position) == pane_count_of(
                    self.pane_counts@.skip(i as int),
                    position,
                ),
            decreases n - i,
        {
            proof {
                assert(self.pane_counts@.skip(i as int)[0] == self.pane_counts@[i as int]);
                assert(self.pane_counts@.skip(i as int).drop_first() =~= self.pane_counts@.skip(
                    i + 1,
                ));
            }
            if self.pane_counts[i].0 == position {
                return Some(self.pane_counts[i].1 as u64);
            }
            i = i + 1;
        }
        proof {
            assert(self.pane_counts@.skip(n as int) =~= Seq::<(usize, usize)>::empty());
        }
        None
    }

    /// The mapping this session renders as, as `session_view_spec` says.
    pub fn view_value(&self) -> (r: TplValue)
        ensures
            r.deep_view() == session_view_spec(*self),
    {
        let mut entries: Vec<(String, TplValue)> = Vec::new();
        entries.push(key_entry("name", TplValue::Text(self.name.clone())));
        entries.push(key_entry("connected_clients", TplValue::Num(self.connected_clients as u64)));
        entries.push(key_entry("is_current_session", TplValue::Bool(self.is_current_session)));
        entries.push(key_entry("web_clients_allowed", TplValue::Bool(self.web_clients_allowed)));
        entries.push(key_entry("web_client_count", TplValue::Num(self.web_client_count as u64)));
        entries.push(key_entry("tab_count", TplValue::Num(self.tabs.len() as u64)));
        proof {
            assert(crate::value::dict_view(&entries) =~= session_view_spec(*self)->Dict_0);
        }
        let r = TplValue::Dict(entries);
        r
    }
}

impl TabRec {
    /// The mapping this tab renders as, as `tab_view_spec` says.
    pub fn view_value(&self, pane_count: u64) -> (r: TplValue)
        ensures
            r.deep_view() == tab_view_spec(*self, pane_count),
    {
        let mut entries: Vec<(String, TplValue)> = Vec::new();
        entries.push(key_entry("position", TplValue::Num(self.position as u64)));
        entries.push(key_entry("name", TplValue::Text(self.name.clone())));
        entries.push(key_entry("active", TplValue::Bool(self.active)));
        entries.push(key_entry("is_fullscreen_active", TplValue::Bool(self.is_fullscreen_active)));
        entries.push(key_entry("is_sync_panes_active", TplValue::Bool(self.is_sync_panes_active)));
        entries.push(
            key_entry("are_floating_panes_visible", TplValue::Bool(self.are_floating_panes_visible)),
        );
        entries.push(key_entry("is_swap_layout_dirty", TplValue::Bool(self.is_swap_layout_dirty)));
        entries.push(key_entry("viewport_rows", TplValue::Num(self.viewport_rows as u64)));
        entries.push(key_entry("viewport_columns", TplValue::Num(self.viewport_columns as u64)));
        entries.push(key_entry("display_area_rows", TplValue::Num(self.display_area_rows as u64)));
        entries.push(
            key_entry("display_area_columns", TplValue::Num(self.display_area_columns as u64)),
        );
        entries.push(
            key_entry(
                "selectable_tiled_panes_count",
                TplValue::Num(self.selectable_tiled_panes_count as u64),
            ),
        );
        entries.push(
            key_entry(
                "selectable_floating_panes_count",
                TplValue::Num(self.selectable_floating_panes_count as u64),
            ),
        );
        entries.push(key_entry("pane_count", TplValue::Num(pane_count)));
        proof {
            assert(crate::value::dict_view(&entries) =~= tab_view_spec(*self, pane_count)->Dict_0);
        }
        let r = TplValue::Dict(entries);
        r
    }
}

/// The render context of a per-session record, as `session_ctx_spec` says.
pub fn session_ctx(s: &SessionRec) -> (r: TplValue)
    ensures
        r.deep_view() == session_ctx_spec(*s),
{
    let mut entries: Vec<(String, TplValue)> = Vec::new();
    entries.push(key_entry("session", s.view_value()));
    proof {
        assert(crate::value::dict_view(&entries) =~= session_ctx_spec(*s)->Dict_0);
    }
    let r = TplValue::Dict(entries);
    r
}

/// The render context of a per-tab record, as `tab_ctx_spec` says.
pub fn tab_ctx(s: &SessionRec, t: &TabRec, pane_count: u64) -> (r: TplValue)
    ensures
        r.deep_view() == tab_ctx_spec(*s, *t, pane_count),
{
    let mut entries: Vec<(String, TplValue)> = Vec::new();
    entries.push(key_entry("session", s.view_value()));
    entries.push(key_entry("tab", t.view_value(pane_count)));
    proof {
        assert(crate::value::dict_view(&entries) =~= tab_ctx_spec(*s, *t, pane_count)->Dict_0);
    }
    let r = TplValue::Dict(entries);
    r
}

} // verus!
