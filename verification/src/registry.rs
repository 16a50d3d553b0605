//! The registry of the overlay's widget rows and the dock/float state
//! machine over them: single widgets and whole sections are detached into
//! floating windows and docked back, guarded by a detach lock.  Each
//! operation returns what the window system has to do.

use vstd::prelude::*;
use crate::dispatch::{call_by_name, called, name_sums_traffic};
use crate::monitor::MonitorState;
use crate::text::str_eq;
use crate::widget::{
    config_sorts_before, key_of, keyed, lemma_sorts_before_order, same_key, sorted_configs, sorts_before,
    DragState, spec_attached, spec_detached, spec_dragged, spec_position_saved, spec_saved_margins,
    spec_section_detached, gesture_fits, gesture_target, DataWidget, DataWidgetConfig, FloatPlacement,
    DEFAULT_FLOAT_MARGIN,
};

verus! {

/// No two widgets share an id.
pub open spec fn unique_ids(ws: Seq<DataWidget>) -> bool {
    forall|i: int, j: int|
        0 <= i < ws.len() && 0 <= j < ws.len() && i != j ==> ws[i].config.id@ != ws[j].config.id@
}

/// Some widget has the id `id`.
pub open spec fn listed(ws: Seq<DataWidget>, id: Seq<char>) -> bool {
    exists|i: int| 0 <= i < ws.len() && ws[i].config.id@ == id
}

/// The index of the widget with id `id` (meaningful when `listed`).
pub open spec fn index_in(ws: Seq<DataWidget>, id: Seq<char>) -> int {
    choose|i: int| 0 <= i < ws.len() && ws[i].config.id@ == id
}

/// Some string of `ss` has the characters `s`.
pub open spec fn names(ss: Seq<String>, s: Seq<char>) -> bool {
    exists|i: int| 0 <= i < ss.len() && ss[i]@ == s
}

/// No two strings of `ss` have the same characters.
pub open spec fn unique_strs(ss: Seq<String>) -> bool {
    forall|i: int, j: int| 0 <= i < ss.len() && 0 <= j < ss.len() && i != j ==> ss[i]@ != ss[j]@
}

/// The widget belongs to section `sec`.
pub open spec fn in_section(w: DataWidget, sec: Seq<char>) -> bool {
    w.config.section_id@ == sec
}

/// `i` is the first index of `ws` whose widget satisfies `p`.
pub open spec fn is_first(ws: Seq<DataWidget>, p: spec_fn(DataWidget) -> bool, i: int) -> bool {
    &&& 0 <= i < ws.len()
    &&& p(ws[i])
    &&& forall|j: int| 0 <= j < i ==> !p(ws[j])
}

/// The first index of `ws` whose widget satisfies `p` (meaningful when one does).
pub open spec fn first_where(ws: Seq<DataWidget>, p: spec_fn(DataWidget) -> bool) -> int {
    choose|i: int| is_first(ws, p, i)
}

/// `first_where` is the first index satisfying `p`, when `k` satisfies it.
pub proof fn lemma_first_where(ws: Seq<DataWidget>, p: spec_fn(DataWidget) -> bool, k: int)
    requires
        is_first(ws, p, k),
    ensures
        first_where(ws, p) == k,
{
    let i = first_where(ws, p);
    assert(is_first(ws, p, i));
    if i < k {
        assert(!p(ws[i]));
    } else if i > k {
        assert(!p(ws[k]));
    }
}

/// A widget of section `sec` that floats away from the top edge; the first
/// such widget fixes where a detached section's window goes.
pub open spec fn anchors(sec: Seq<char>) -> spec_fn(DataWidget) -> bool {
    |w: DataWidget| in_section(w, sec) && w.config.margin_from_y != 0
}

/// The default `(top, right)` margins of a floating window.
pub const DEFAULT_FLOAT_MARGIN_PAIR: (i32, i32) = (DEFAULT_FLOAT_MARGIN, DEFAULT_FLOAT_MARGIN);

/// `(top, right)` of the floating window a detached section `sec` opens at:
/// the margins of its first widget with a non-zero top margin, else the default.
pub open spec fn section_anchor(ws: Seq<DataWidget>, sec: Seq<char>) -> (i32, i32) {
    if exists|i: int| 0 <= i < ws.len() && anchors(sec)(ws[i]) {
        let k = first_where(ws, anchors(sec));
        (ws[k].config.margin_from_y, ws[k].config.margin_from_x)
    } else {
        (DEFAULT_FLOAT_MARGIN, DEFAULT_FLOAT_MARGIN)
    }
}

/// The widget belongs to `sec` and is docked (`docked`) or floating (`!docked`).
pub open spec fn moves(w: DataWidget, sec: Seq<char>, docked: bool) -> bool {
    in_section(w, sec) && w.config.docked() == docked
}

/// Detaching section `sec` takes the widget along: every widget of `sec`,
/// docked or floating in a window of its own.
pub open spec fn leaves_with(w: DataWidget, sec: Seq<char>) -> bool {
    in_section(w, sec)
}

/// The widget belongs to `sec` and, when `which` is `Some(docked)`, is
/// docked (`docked`) or floating (`!docked`).
pub open spec fn picks(w: DataWidget, sec: Seq<char>, which: Option<bool>) -> bool {
    in_section(w, sec) && match which {
        Some(docked) => w.config.docked() == docked,
        None => true,
    }
}

/// Re-attaching section `sec` moves the widget: it belongs to `sec` and floats.
pub open spec fn returns_with(w: DataWidget, sec: Seq<char>) -> bool {
    moves(w, sec, false)
}

/// The widgets after section `sec` was detached into the window of handle
/// `h` at `(t, r)`.
pub open spec fn section_detached(ws: Seq<DataWidget>, sec: Seq<char>, h: u64, t: i32, r: i32) -> Seq<DataWidget> {
    Seq::new(ws.len(), |i: int| if leaves_with(ws[i], sec) { spec_section_detached(ws[i], h, t, r) } else { ws[i] })
}

/// The widgets after section `sec` was re-attached.
pub open spec fn section_attached(ws: Seq<DataWidget>, sec: Seq<char>) -> Seq<DataWidget> {
    Seq::new(ws.len(), |i: int| if returns_with(ws[i], sec) { spec_attached(ws[i]) } else { ws[i] })
}

/// Some widget of `ws` with id `id` is one `picks` takes from section `sec`.
pub open spec fn moving_id(ws: Seq<DataWidget>, id: Seq<char>, sec: Seq<char>, which: Option<bool>) -> bool {
    exists|i: int| 0 <= i < ws.len() && picks(ws[i], sec, which) && ws[i].config.id@ == id
}

/// `ids` lists exactly the ids of the widgets of `ws` that `picks` takes
/// from section `sec`.
pub open spec fn lists_ids(ids: Seq<String>, ws: Seq<DataWidget>, sec: Seq<char>, which: Option<bool>) -> bool {
    &&& forall|k: int| 0 <= k < ids.len() ==> #[trigger] moving_id(ws, ids[k]@, sec, which)
    &&& forall|i: int| 0 <= i < ws.len() && picks(ws[i], sec, which) ==> names(ids, #[trigger] ws[i].config.id@)
}

/// With unique ids, the widget at `k` is the one `index_in` finds for its id.
pub proof fn lemma_index_in(ws: Seq<DataWidget>, id: Seq<char>, k: int)
    requires
        unique_ids(ws),
        0 <= k < ws.len(),
        ws[k].config.id@ == id,
    ensures
        index_in(ws, id) == k,
        listed(ws, id),
{
    let i = index_in(ws, id);
    assert(0 <= i < ws.len() && ws[i].config.id@ == id);
}

/// Whether `s` is one of the strings of `v`.
pub fn contains_str(v: &Vec<String>, s: &str) -> (r: bool)
    ensures
        r == names(v@, s@),
{
    let mut i: usize = 0;
    while i < v.len()
        invariant
            i <= v.len(),
            forall|j: int| 0 <= j < i ==> v@[j]@ != s@,
        decreases v.len() - i,
    {
        if str_eq(v[i].as_str(), s) {
            return true;
        }
        i = i + 1;
    }
    false
}

/// What a change of the dock/float layout asks of the window system.
pub enum LayoutChange {
    /// Nothing changed.
    Unchanged,
    /// The widget `id` left its section for a floating window.
    WidgetDetached { id: String, placement: FloatPlacement },
    /// The widget `id` went back into its section.
    WidgetAttached { id: String },
    /// The listed widgets of a section left it for one shared floating window.
    SectionDetached(SectionFloat),
    /// The listed floating widgets of a section went back into it.
    SectionAttached(SectionDock),
}

/// A section's docked widgets moved into one floating window.
pub struct SectionFloat {
    pub section_id: String,
    pub ids: Vec<String>,
    pub placement: FloatPlacement,
    /// The section's header moves into the floating window too.
    pub has_header: bool,
}

/// A section's floating widgets moved back into it.
pub struct SectionDock {
    pub section_id: String,
    pub ids: Vec<String>,
    /// The section's header goes back to the top of the section.
    pub has_header: bool,
    /// The section's shared floating window is closed.
    pub had_window: bool,
}

/// The overlay's widgets, its sections, and the detach lock.
pub struct WidgetRegistry {
    widgets: Vec<DataWidget>,
    section_boxes: Vec<String>,
    section_headers: Vec<String>,
    has_application: bool,
    detach_lock: bool,
    section_float_wins: Vec<String>,
    next_handle: u64,
}

/// The drag handle that follows `h`.
pub open spec fn next_handle_after(h: u64) -> u64 {
    if h == u64::MAX { 0 } else { (h + 1) as u64 }
}

/// `new` is `old` after `detach_widget(id)` answered `p`: the widget `id`
/// floats at its saved margins with a fresh drag handle when it could be
/// detached, and nothing changed otherwise.
pub open spec fn detach_widget_post(
    old: WidgetRegistry,
    new: WidgetRegistry,
    id: Seq<char>,
    p: Option<FloatPlacement>,
) -> bool {
    &&& (p is Some <==> old.can_detach(id))
    &&& old.can_detach(id) ==> {
        let ws = old.widget_seq();
        let i = index_in(ws, id);
        let h = old.handle_counter();
        let (t, r) = spec_saved_margins(ws[i].config);
        &&& new.widget_seq() == ws.update(i, spec_detached(ws[i], h))
        &&& p == Some(FloatPlacement { handle: h, top: t, right: r })
        &&& new.handle_counter() == next_handle_after(h)
        &&& new.section_seq() == old.section_seq()
        &&& new.header_seq() == old.header_seq()
        &&& new.application_set() == old.application_set()
        &&& new.locked() == old.locked()
        &&& new.float_window_seq() == old.float_window_seq()
    }
    &&& !old.can_detach(id) ==> new == old
}

/// `new` is `old` after `reattach_widget(id)` answered `done`: the widget
/// `id` is docked with zero margins when it could be re-attached, and
/// nothing changed otherwise.
pub open spec fn attach_widget_post(
    old: WidgetRegistry,
    new: WidgetRegistry,
    id: Seq<char>,
    done: bool,
) -> bool {
    &&& done == old.can_attach(id)
    &&& done ==> {
        let ws = old.widget_seq();
        let i = index_in(ws, id);
        &&& new.widget_seq() == ws.update(i, spec_attached(ws[i]))
        &&& new.same_frame(&old)
    }
    &&& !done ==> new == old
}

/// `new` is `old` after `detach_section(sec)` answered `res`: when the
/// application context is set and `sec` has a container and some widget,
/// every widget of `sec`, docked or floating, moves into one new shared
/// floating window at the section's anchor; otherwise nothing changed.
pub open spec fn detach_section_post(
    old: WidgetRegistry,
    new: WidgetRegistry,
    sec: Seq<char>,
    res: Option<SectionFloat>,
) -> bool {
    let ws = old.widget_seq();
    let possible = old.application_set() && names(old.section_seq(), sec) && exists|i: int|
        0 <= i < ws.len() && leaves_with(ws[i], sec);
    &&& (res is Some <==> possible)
    &&& res matches Some(f) ==> {
        let (t, r) = section_anchor(ws, sec);
        let h = old.handle_counter();
        &&& new.widget_seq() == section_detached(ws, sec, h, t, r)
        &&& f.section_id@ == sec
        &&& f.placement == FloatPlacement { handle: h, top: t, right: r }
        &&& f.has_header == names(old.header_seq(), sec)
        &&& lists_ids(f.ids@, ws, sec, None)
        &&& new.handle_counter() == next_handle_after(h)
        &&& new.section_seq() == old.section_seq()
        &&& new.header_seq() == old.header_seq()
        &&& new.application_set() == old.application_set()
        &&& new.locked() == old.locked()
        &&& forall|s: Seq<char>| names(new.float_window_seq(), s) <==> (names(old.float_window_seq(), s) || s == sec)
    }
    &&& res is None ==> new == old
}

/// Section `sec` can be re-attached: it has a container and some floating widget.
pub open spec fn can_attach_section(old: WidgetRegistry, sec: Seq<char>) -> bool {
    let ws = old.widget_seq();
    names(old.section_seq(), sec) && exists|i: int| 0 <= i < ws.len() && returns_with(ws[i], sec)
}

/// `new` is `old` after section `sec` was re-attached, reported as `d`:
/// every floating widget of `sec` is docked again and the section's window
/// is gone.
pub open spec fn section_attach_effect(old: WidgetRegistry, new: WidgetRegistry, sec: Seq<char>, d: SectionDock) -> bool {
    let ws = old.widget_seq();
    &&& new.widget_seq() == section_attached(ws, sec)
    &&& d.section_id@ == sec
    &&& d.has_header == names(old.header_seq(), sec)
    &&& d.had_window == names(old.float_window_seq(), sec)
    &&& lists_ids(d.ids@, ws, sec, Some(false))
    &&& new.handle_counter() == old.handle_counter()
    &&& new.section_seq() == old.section_seq()
    &&& new.header_seq() == old.header_seq()
    &&& new.application_set() == old.application_set()
    &&& new.locked() == old.locked()
    &&& forall|s: Seq<char>| names(new.float_window_seq(), s) <==> (names(old.float_window_seq(), s) && s != sec)
}

/// `new` is `old` after `reattach_section(sec)` answered `res`: the section
/// was re-attached when it could be, and nothing changed otherwise.
pub open spec fn attach_section_post(
    old: WidgetRegistry,
    new: WidgetRegistry,
    sec: Seq<char>,
    res: Option<SectionDock>,
) -> bool {
    &&& (res is Some <==> can_attach_section(old, sec))
    &&& res matches Some(d) ==> section_attach_effect(old, new, sec, d)
    &&& res is None ==> new == old
}

/// A widget freshly created for `c`: not floating, no drag state.
pub open spec fn fresh_widget(c: DataWidgetConfig) -> DataWidget {
    DataWidget { config: c, float_win: false, drag_state: None }
}

/// `ws` with `w` added, replacing the widget of the same id if there is one.
pub open spec fn upsert(ws: Seq<DataWidget>, w: DataWidget) -> Seq<DataWidget> {
    if listed(ws, w.config.id@) {
        ws.update(index_in(ws, w.config.id@), w)
    } else {
        ws.push(w)
    }
}

/// The widgets registered from `cs` in order; a later configuration with an
/// id seen before replaces the earlier one in its place.
pub open spec fn registered(cs: Seq<DataWidgetConfig>) -> Seq<DataWidget>
    decreases cs.len(),
{
    if cs.len() == 0 {
        Seq::empty()
    } else {
        upsert(registered(cs.drop_last()), fresh_widget(cs.last()))
    }
}

/// The widgets, the next drag handle and the layout changes after restoring
/// configuration `c` in a registry whose sections with a container are
/// `secs` and whose application context is set when `app`.  The widget with
/// the id of `c`, if any, takes its margins; saved as floating and without a
/// window, it floats again in a new window at those margins (when its
/// section has a container and the context is set); saved as docked while
/// it floats in a window, it is docked again (when its section has a
/// container).
pub open spec fn restore_one(
    ws: Seq<DataWidget>,
    h: u64,
    c: DataWidgetConfig,
    secs: Seq<String>,
    app: bool,
) -> (Seq<DataWidget>, u64, Seq<LayoutChange>) {
    if !listed(ws, c.id@) {
        (ws, h, Seq::empty())
    } else {
        let i = index_in(ws, c.id@);
        let w = ws[i];
        let m = DataWidget { config: w.config.with_margins(c.margin_from_x, c.margin_from_y), ..w };
        let boxed = names(secs, w.config.section_id@);
        if !m.config.docked() && !w.float_win && boxed && app {
            let (t, r) = spec_saved_margins(m.config);
            (
                ws.update(i, spec_detached(m, h)),
                next_handle_after(h),
                seq![LayoutChange::WidgetDetached { id: w.config.id, placement: FloatPlacement { handle: h, top: t, right: r } }],
            )
        } else if m.config.docked() && w.float_win && boxed {
            (ws.update(i, spec_attached(m)), h, seq![LayoutChange::WidgetAttached { id: w.config.id }])
        } else {
            (ws.update(i, m), h, Seq::empty())
        }
    }
}

/// The widgets, next drag handle and layout changes after restoring every
/// configuration of `cs` in order.
pub open spec fn restore_all(
    ws: Seq<DataWidget>,
    h: u64,
    cs: Seq<DataWidgetConfig>,
    secs: Seq<String>,
    app: bool,
) -> (Seq<DataWidget>, u64, Seq<LayoutChange>)
    decreases cs.len(),
{
    if cs.len() == 0 {
        (ws, h, Seq::empty())
    } else {
        let (ws1, h1, ch1) = restore_all(ws, h, cs.drop_last(), secs, app);
        let (ws2, h2, ch2) = restore_one(ws1, h1, cs.last(), secs, app);
        (ws2, h2, ch1 + ch2)
    }
}

/// Every widget has a floating window exactly when its configuration floats.
pub open spec fn windows_match(ws: Seq<DataWidget>) -> bool {
    forall|i: int| 0 <= i < ws.len() ==> (#[trigger] ws[i]).float_win == !ws[i].config.docked()
}

/// `(top, right)` of the window with drag handle `h` as the first widget
/// holding it records it; `None` when no widget holds it.
pub open spec fn drag_base_of(ws: Seq<DataWidget>, h: u64) -> Option<(i32, i32)> {
    if exists|i: int| 0 <= i < ws.len() && holds_handle(h)(ws[i]) {
        let d = ws[first_where(ws, holds_handle(h))].drag_state->0;
        Some((d.top, d.right))
    } else {
        None
    }
}

/// The widgets after the window of drag handle `h` moved to `(top, right)`.
pub open spec fn dragged_all(ws: Seq<DataWidget>, h: u64, top: i32, right: i32) -> Seq<DataWidget> {
    ws.map_values(|w: DataWidget| spec_dragged(w, h, top, right))
}

/// The widgets after a drag update or end put the window of drag handle `h`
/// at `target`; nothing moves for `None`.
pub open spec fn after_drag(ws: Seq<DataWidget>, h: u64, target: Option<(i32, i32)>) -> Seq<DataWidget> {
    match target {
        Some((t, r)) => dragged_all(ws, h, t, r),
        None => ws,
    }
}

/// The widget holds the drag state of handle `handle`.
pub open spec fn holds_handle(handle: u64) -> spec_fn(DataWidget) -> bool {
    |w: DataWidget| w.drag_state matches Some(d) && d.handle == handle
}

/// Inserting or replacing a widget by id keeps ids unique and lists it.
pub proof fn lemma_upsert_unique(ws: Seq<DataWidget>, w: DataWidget)
    requires
        unique_ids(ws),
    ensures
        unique_ids(upsert(ws, w)),
        listed(upsert(ws, w), w.config.id@),
{
    let id = w.config.id@;
    if listed(ws, id) {
        let i = index_in(ws, id);
        let u = ws.update(i, w);
        assert forall|a: int, b: int| 0 <= a < u.len() && 0 <= b < u.len() && a != b implies u[a].config.id@ != u[b].config.id@ by {
            if a == i {
                assert(ws[i].config.id@ == id);
            } else if b == i {
                assert(ws[i].config.id@ == id);
            }
        }
        assert(u[i].config.id@ == id);
    } else {
        let u = ws.push(w);
        assert(u[ws.len() as int].config.id@ == id);
    }
}

/// The widgets registered from any configurations have unique ids.
pub proof fn lemma_registered_unique(cs: Seq<DataWidgetConfig>)
    ensures
        unique_ids(registered(cs)),
    decreases cs.len(),
{
    if cs.len() > 0 {
        lemma_registered_unique(cs.drop_last());
        lemma_upsert_unique(registered(cs.drop_last()), fresh_widget(cs.last()));
    }
}

/// Moves every widget of section `sec` into the window of handle `h` at `(t, r)`.
fn float_section_members(widgets: &mut Vec<DataWidget>, sec: &str, h: u64, t: i32, r: i32)
    ensures
        final(widgets)@ == section_detached(old(widgets)@, sec@, h, t, r),
{
    let ghost ws0 = widgets@;
    let mut i: usize = 0;
    while i < widgets.len()
        invariant
            i <= widgets.len(),
            widgets@.len() == ws0.len(),
            forall|j: int| 0 <= j < ws0.len() ==> #[trigger] widgets@[j] == (if j < i && leaves_with(ws0[j], sec@) {
                spec_section_detached(ws0[j], h, t, r)
            } else {
                ws0[j]
            }),
        decreases widgets.len() - i,
    {
        if str_eq(widgets[i].config.section_id.as_str(), sec) {
            widgets[i].join_section_window(h, t, r);
        }
        i = i + 1;
    }
    proof {
        assert(widgets@ =~= section_detached(ws0, sec@, h, t, r));
    }
}

/// Copies every floating widget's live position into its configuration.
fn save_positions(widgets: &mut Vec<DataWidget>)
    ensures
        final(widgets)@ == old(widgets)@.map_values(|w: DataWidget| spec_position_saved(w)),
{
    let ghost ws0 = widgets@;
    let mut i: usize = 0;
    while i < widgets.len()
        invariant
            i <= widgets.len(),
            widgets@.len() == ws0.len(),
            forall|j: int| 0 <= j < ws0.len() ==> #[trigger] widgets@[j] == (if j < i { spec_position_saved(ws0[j]) } else { ws0[j] }),
        decreases widgets.len() - i,
    {
        widgets[i].update_config_position();
        i = i + 1;
    }
    proof {
        assert(widgets@ =~= ws0.map_values(|w: DataWidget| spec_position_saved(w)));
    }
}

/// Moves every widget holding drag handle `handle` to `(top, right)`.
fn move_drag(widgets: &mut Vec<DataWidget>, handle: u64, top: i32, right: i32)
    ensures
        final(widgets)@ == old(widgets)@.map_values(|w: DataWidget| spec_dragged(w, handle, top, right)),
{
    let ghost ws0 = widgets@;
    let mut i: usize = 0;
    while i < widgets.len()
        invariant
            i <= widgets.len(),
            widgets@.len() == ws0.len(),
            forall|j: int| 0 <= j < ws0.len() ==> #[trigger] widgets@[j] == (if j < i { spec_dragged(ws0[j], handle, top, right) } else { ws0[j] }),
        decreases widgets.len() - i,
    {
        widgets[i].follow_drag(handle, top, right);
        i = i + 1;
    }
    proof {
        assert(widgets@ =~= ws0.map_values(|w: DataWidget| spec_dragged(w, handle, top, right)));
    }
}

/// Docks the floating widgets of section `sec`.
fn dock_section_members(widgets: &mut Vec<DataWidget>, sec: &str)
    ensures
        final(widgets)@ == section_attached(old(widgets)@, sec@),
{
    let ghost ws0 = widgets@;
    let mut i: usize = 0;
    while i < widgets.len()
        invariant
            i <= widgets.len(),
            widgets@.len() == ws0.len(),
            forall|j: int| 0 <= j < ws0.len() ==> #[trigger] widgets@[j] == (if j < i && returns_with(ws0[j], sec@) {
                spec_attached(ws0[j])
            } else {
                ws0[j]
            }),
        decreases widgets.len() - i,
    {
        if str_eq(widgets[i].config.section_id.as_str(), sec) && widgets[i].is_floating() {
            widgets[i].attach();
        }
        i = i + 1;
    }
    proof {
        assert(widgets@ =~= section_attached(ws0, sec@));
    }
}

impl WidgetRegistry {
    /// The widgets, in registry order.
    pub closed spec fn widget_seq(&self) -> Seq<DataWidget> {
        self.widgets@
    }

    /// Ids of the sections that have a container in the overlay.
    pub closed spec fn section_seq(&self) -> Seq<String> {
        self.section_boxes@
    }

    /// Ids of the sections that have a header label.
    pub closed spec fn header_seq(&self) -> Seq<String> {
        self.section_headers@
    }

    /// Ids of the sections that currently have a shared floating window.
    pub closed spec fn float_window_seq(&self) -> Seq<String> {
        self.section_float_wins@
    }

    /// Whether the application context (needed to open windows) is set.
    pub closed spec fn application_set(&self) -> bool {
        self.has_application
    }

    /// Whether the detach lock is on.
    pub closed spec fn locked(&self) -> bool {
        self.detach_lock
    }

    /// The drag handle the next floating window gets.
    pub closed spec fn handle_counter(&self) -> u64 {
        self.next_handle
    }

    /// Well-formed: widget ids are unique, and so are the sections that have
    /// a floating window.
    pub closed spec fn wf(&self) -> bool {
        &&& unique_ids(self.widgets@)
        &&& unique_strs(self.section_float_wins@)
    }

    /// Everything but the widgets is as in `other`.
    pub open spec fn same_frame(&self, other: &WidgetRegistry) -> bool {
        &&& self.section_seq() == other.section_seq()
        &&& self.header_seq() == other.header_seq()
        &&& self.application_set() == other.application_set()
        &&& self.locked() == other.locked()
        &&& self.float_window_seq() == other.float_window_seq()
        &&& self.handle_counter() == other.handle_counter()
    }

    /// The widget `id` exists and is docked.
    pub open spec fn docked_widget(&self, id: Seq<char>) -> bool {
        listed(self.widget_seq(), id) && self.widget_seq()[index_in(self.widget_seq(), id)].config.docked()
    }

    /// Every widget of section `sec` is docked.
    pub open spec fn docked_section(&self, sec: Seq<char>) -> bool {
        forall|i: int| 0 <= i < self.widget_seq().len() && in_section(self.widget_seq()[i], sec) ==> self.widget_seq()[i].config.docked()
    }

    /// A single widget `id` may be detached: it exists, is docked, its
    /// section has a container, and the application context is set.
    pub open spec fn can_detach(&self, id: Seq<char>) -> bool {
        let ws = self.widget_seq();
        &&& listed(ws, id)
        &&& ws[index_in(ws, id)].config.docked()
        &&& names(self.section_seq(), ws[index_in(ws, id)].config.section_id@)
        &&& self.application_set()
    }

    /// A single widget `id` may be re-attached: it exists, is floating, and
    /// its section has a container.
    pub open spec fn can_attach(&self, id: Seq<char>) -> bool {
        let ws = self.widget_seq();
        &&& listed(ws, id)
        &&& !ws[index_in(ws, id)].config.docked()
        &&& names(self.section_seq(), ws[index_in(ws, id)].config.section_id@)
    }

    /// A registry with no widgets and no sections.
    pub fn empty() -> (r: Self)
        ensures
            r.wf(),
            r.widget_seq().len() == 0,
            r.section_seq().len() == 0,
            r.header_seq().len() == 0,
            !r.application_set(),
            !r.locked(),
            r.float_window_seq().len() == 0,
            r.handle_counter() == 0,
    {
        WidgetRegistry {
            widgets: Vec::new(),
            section_boxes: Vec::new(),
            section_headers: Vec::new(),
            has_application: false,
            detach_lock: false,
            section_float_wins: Vec::new(),
            next_handle: 0,
        }
    }

    /// The index of the widget `id`, if there is one.
    fn find(&self, id: &str) -> (r: Option<usize>)
        requires
            self.wf(),
        ensures
            r is Some <==> listed(self.widget_seq(), id@),
            r matches Some(i) ==> i == index_in(self.widget_seq(), id@) && i < self.widgets@.len(),
    {
        let mut i: usize = 0;
        while i < self.widgets.len()
            invariant
                i <= self.widgets.len(),
                unique_ids(self.widgets@),
                forall|j: int| 0 <= j < i ==> self.widgets@[j].config.id@ != id@,
            decreases self.widgets.len() - i,
        {
            if str_eq(self.widgets[i].config.id.as_str(), id) {
                proof {
                    lemma_index_in(self.widgets@, id@, i as int);
                }
                return Some(i);
            }
            i = i + 1;
        }
        None
    }

    /// Whether the widget `id` exists and is docked.
    pub fn is_docked(&self, id: &str) -> (r: bool)
        requires
            self.wf(),
        ensures
            r == self.docked_widget(id@),
    {
        match self.find(id) {
            Some(i) => self.widgets[i].is_docked(),
            None => false,
        }
    }

    /// Whether the detach lock is on.
    pub fn is_lock_active(&self) -> (r: bool)
        ensures
            r == self.locked(),
    {
        self.detach_lock
    }

    /// Turns the detach lock on or off.
    pub fn set_lock(&mut self, locked: bool)
        requires
            old(self).wf(),
        ensures
            final(self).wf(),
            final(self).locked() == locked,
            final(self).widget_seq() == old(self).widget_seq(),
            final(self).section_seq() == old(self).section_seq(),
            final(self).header_seq() == old(self).header_seq(),
            final(self).application_set() == old(self).application_set(),
            final(self).float_window_seq() == old(self).float_window_seq(),
            final(self).handle_counter() == old(self).handle_counter(),
    {
        self.detach_lock = locked;
    }

    fn take_handle(&mut self) -> (h: u64)
        ensures
            h == old(self).next_handle,
            final(self).next_handle == next_handle_after(h),
            final(self).widgets == old(self).widgets,
            final(self).section_boxes == old(self).section_boxes,
            final(self).section_headers == old(self).section_headers,
            final(self).has_application == old(self).has_application,
            final(self).detach_lock == old(self).detach_lock,
            final(self).section_float_wins == old(self).section_float_wins,
    {
        let h = self.next_handle;
        self.next_handle = if h == u64::MAX { 0 } else { h + 1 };
        h
    }

    /// Moves the docked widget `id` into a floating window at its saved
    /// margins.  Nothing happens unless `can_detach(id)`.
    pub fn detach_widget(&mut self, id: &str) -> (p: Option<FloatPlacement>)
        requires
            old(self).wf(),
        ensures
            final(self).wf(),
            detach_widget_post(*old(self), *final(self), id@, p),
    {
        let i = match self.find(id) {
            Some(i) => i,
            None => return None,
        };
        if !self.widgets[i].is_docked() {
            return None;
        }
        if !contains_str(&self.section_boxes, self.widgets[i].config.section_id.as_str()) {
            return None;
        }
        if !self.has_application {
            return None;
        }
        let h = self.take_handle();
        let ghost before = self.widgets@;
        let p = self.widgets[i].detach(h);
        proof {
            assert(self.widgets@ =~= before.update(i as int, spec_detached(before[i as int], h)));
            assert forall|a: int, b: int|
                0 <= a < self.widgets@.len() && 0 <= b < self.widgets@.len() && a != b implies
                self.widgets@[a].config.id@ != self.widgets@[b].config.id@ by {
                assert(self.widgets@[a].config.id == before[a].config.id);
                assert(self.widgets@[b].config.id == before[b].config.id);
            }
        }
        p
    }

    /// Docks the floating widget `id` back into its section.  Nothing happens
    /// unless `can_attach(id)`.
    pub fn reattach_widget(&mut self, id: &str) -> (done: bool)
        requires
            old(self).wf(),
        ensures
            final(self).wf(),
            attach_widget_post(*old(self), *final(self), id@, done),
    {
        let i = match self.find(id) {
            Some(i) => i,
            None => return false,
        };
        if !self.widgets[i].is_floating() {
            return false;
        }
        if !contains_str(&self.section_boxes, self.widgets[i].config.section_id.as_str()) {
            return false;
        }
        let ghost before = self.widgets@;
        self.widgets[i].attach();
        proof {
            assert(self.widgets@ =~= before.update(i as int, spec_attached(before[i as int])));
            assert forall|a: int, b: int|
                0 <= a < self.widgets@.len() && 0 <= b < self.widgets@.len() && a != b implies
                self.widgets@[a].config.id@ != self.widgets@[b].config.id@ by {
                assert(self.widgets@[a].config.id == before[a].config.id);
                assert(self.widgets@[b].config.id == before[b].config.id);
            }
        }
        true
    }

    /// Whether every widget of section `section_id` is docked.
    pub fn is_section_docked(&self, section_id: &str) -> (r: bool)
        ensures
            r == self.docked_section(section_id@),
    {
        let mut i: usize = 0;
        while i < self.widgets.len()
            invariant
                i <= self.widgets.len(),
                forall|j: int| 0 <= j < i && in_section(self.widgets@[j], section_id@) ==> self.widgets@[j].config.docked(),
            decreases self.widgets.len() - i,
        {
            if str_eq(self.widgets[i].config.section_id.as_str(), section_id) && self.widgets[i].is_floating() {
                return false;
            }
            i = i + 1;
        }
        true
    }

    /// Where a detached section's window opens.
    fn anchor_of(&self, section_id: &str) -> (r: (i32, i32))
        ensures
            r == section_anchor(self.widgets@, section_id@),
    {
        let ghost p = anchors(section_id@);
        let mut i: usize = 0;
        while i < self.widgets.len()
            invariant
                i <= self.widgets.len(),
                p == anchors(section_id@),
                forall|j: int| 0 <= j < i ==> !p(self.widgets@[j]),
            decreases self.widgets.len() - i,
        {
            if str_eq(self.widgets[i].config.section_id.as_str(), section_id)
                && self.widgets[i].config.margin_from_y != 0 {
                proof {
                    lemma_first_where(self.widgets@, p, i as int);
                }
                return (self.widgets[i].config.margin_from_y, self.widgets[i].config.margin_from_x);
            }
            i = i + 1;
        }
        DEFAULT_FLOAT_MARGIN_PAIR
    }

    /// Ids of the widgets of section `section_id`: all of them (`None`), or
    /// those docked (`Some(true)`) or floating (`Some(false)`).
    fn section_ids(&self, section_id: &str, which: Option<bool>) -> (ids: Vec<String>)
        ensures
            lists_ids(ids@, self.widgets@, section_id@, which),
    {
        let mut ids: Vec<String> = Vec::new();
        let mut i: usize = 0;
        while i < self.widgets.len()
            invariant
                i <= self.widgets.len(),
                forall|k: int| 0 <= k < ids@.len() ==> #[trigger] moving_id(self.widgets@.take(i as int), ids@[k]@, section_id@, which),
                forall|j: int| 0 <= j < i && picks(self.widgets@[j], section_id@, which) ==> names(ids@, #[trigger] self.widgets@[j].config.id@),
            decreases self.widgets.len() - i,
        {
            let ghost before = ids@;
            let take = str_eq(self.widgets[i].config.section_id.as_str(), section_id) && match which {
                Some(docked) => self.widgets[i].is_docked() == docked,
                None => true,
            };
            if take {
                ids.push(self.widgets[i].config.id.clone());
            }
            proof {
                assert(take == picks(self.widgets@[i as int], section_id@, which));
                if take {
                    assert(ids@ == before.push(self.widgets@[i as int].config.id));
                } else {
                    assert(ids@ == before);
                }
                assert forall|j: int| 0 <= j < i + 1 && picks(self.widgets@[j], section_id@, which) implies names(ids@, #[trigger] self.widgets@[j].config.id@) by {
                    if j < i {
                        assert(names(before, self.widgets@[j].config.id@));
                        let k = choose|k: int| 0 <= k < before.len() && before[k]@ == self.widgets@[j].config.id@;
                        assert(ids@[k] == before[k]);
                    } else {
                        assert(ids@[ids@.len() - 1]@ == self.widgets@[j].config.id@);
                    }
                }
                assert forall|k: int| 0 <= k < ids@.len() implies #[trigger] moving_id(self.widgets@.take(i + 1), ids@[k]@, section_id@, which) by {
                    if k < before.len() {
                        assert(ids@[k] == before[k]);
                        assert(moving_id(self.widgets@.take(i as int), before[k]@, section_id@, which));
                        let j = choose|j: int| 0 <= j < i && picks(self.widgets@.take(i as int)[j], section_id@, which) && self.widgets@.take(i as int)[j].config.id@ == before[k]@;
                        assert(self.widgets@.take(i + 1)[j] == self.widgets@.take(i as int)[j]);
                    } else {
                        assert(self.widgets@.take(i + 1)[i as int] == self.widgets@[i as int]);
                    }
                }
            }
            i = i + 1;
        }
        proof {
            assert(self.widgets@.take(self.widgets@.len() as int) =~= self.widgets@);
        }
        ids
    }

    /// The index of `s` in `v`, if it is there.
    fn position_str(v: &Vec<String>, s: &str) -> (r: Option<usize>)
        ensures
            r matches Some(k) ==> k < v@.len() && v@[k as int]@ == s@,
            r is None ==> !names(v@, s@),
    {
        let mut k: usize = 0;
        while k < v.len()
            invariant
                k <= v.len(),
                forall|j: int| 0 <= j < k ==> v@[j]@ != s@,
            decreases v.len() - k,
        {
            if str_eq(v[k].as_str(), s) {
                return Some(k);
            }
            k = k + 1;
        }
        None
    }

    /// Moves every widget of section `section_id`, docked or floating in a
    /// window of its own, into one shared floating window, placed where the
    /// section's first top-offset widget floated, else at the default margins.
    pub fn detach_section(&mut self, section_id: &str) -> (res: Option<SectionFloat>)
        requires
            old(self).wf(),
        ensures
            final(self).wf(),
            detach_section_post(*old(self), *final(self), section_id@, res),
    {
        if !self.has_application {
            return None;
        }
        if !contains_str(&self.section_boxes, section_id) {
            return None;
        }
        let (top, right) = self.anchor_of(section_id);
        let ids = self.section_ids(section_id, None);
        if ids.len() == 0 {
            proof {
                assert forall|i: int| 0 <= i < self.widgets@.len() implies !leaves_with(self.widgets@[i], section_id@) by {
                    if leaves_with(self.widgets@[i], section_id@) {
                        assert(names(ids@, self.widgets@[i].config.id@));
                    }
                }
            }
            return None;
        }
        let has_header = contains_str(&self.section_headers, section_id);
        let ghost orig = *self;
        let h = self.take_handle();
        let ghost ws0 = self.widgets@;
        float_section_members(&mut self.widgets, section_id, h, top, right);
        proof {
            assert forall|a: int, b: int|
                0 <= a < self.widgets@.len() && 0 <= b < self.widgets@.len() && a != b implies
                self.widgets@[a].config.id@ != self.widgets@[b].config.id@ by {
                assert(self.widgets@[a].config.id == ws0[a].config.id);
                assert(self.widgets@[b].config.id == ws0[b].config.id);
            }
            assert(moving_id(ws0, ids@[0]@, section_id@, None));
            let w = choose|i: int| 0 <= i < ws0.len() && picks(ws0[i], section_id@, None) && ws0[i].config.id@ == ids@[0]@;
            assert(leaves_with(ws0[w], section_id@));
        }
        let ghost fw0 = self.section_float_wins@;
        if !contains_str(&self.section_float_wins, section_id) {
            self.section_float_wins.push(section_id.to_owned());
            proof {
                assert forall|s: Seq<char>| names(self.section_float_wins@, s) <==> (names(fw0, s) || s == section_id@) by {
                    if names(fw0, s) {
                        let k = choose|k: int| 0 <= k < fw0.len() && fw0[k]@ == s;
                        assert(self.section_float_wins@[k] == fw0[k]);
                    }
                    if s == section_id@ {
                        assert(self.section_float_wins@[fw0.len() as int]@ == s);
                    }
                    if names(self.section_float_wins@, s) {
                        let k = choose|k: int| 0 <= k < self.section_float_wins@.len() && self.section_float_wins@[k]@ == s;
                        if k < fw0.len() {
                            assert(self.section_float_wins@[k] == fw0[k]);
                        }
                    }
                }
            }
        }
        let f = SectionFloat {
            section_id: section_id.to_owned(),
            ids,
            placement: FloatPlacement { handle: h, top, right },
            has_header,
        };
        proof {
            let ws = orig.widget_seq();
            assert(orig.application_set());
            assert(names(orig.section_seq(), section_id@));
            assert(self.widget_seq() == section_detached(ws, section_id@, h, top, right));
            assert(f.section_id@ == section_id@);
            assert(lists_ids(f.ids@, ws, section_id@, None));
            assert(self.handle_counter() == next_handle_after(orig.handle_counter()));
            assert(self.section_seq() == orig.section_seq());
            assert(self.header_seq() == orig.header_seq());
            assert(self.locked() == orig.locked());
            assert(f.has_header == names(orig.header_seq(), section_id@));
            assert(forall|s: Seq<char>| names(self.float_window_seq(), s) <==> (names(orig.float_window_seq(), s) || s == section_id@));
        }
        Some(f)
    }

    /// Docks every floating widget of section `section_id` back into it and
    /// drops the section's floating window.
    pub fn reattach_section(&mut self, section_id: &str) -> (res: Option<SectionDock>)
        requires
            old(self).wf(),
        ensures
            final(self).wf(),
            attach_section_post(*old(self), *final(self), section_id@, res),
    {
        if !contains_str(&self.section_boxes, section_id) {
            return None;
        }
        let ids = self.section_ids(section_id, Some(false));
        if ids.len() == 0 {
            proof {
                assert forall|i: int| 0 <= i < self.widgets@.len() implies !returns_with(self.widgets@[i], section_id@) by {
                    if returns_with(self.widgets@[i], section_id@) {
                        assert(names(ids@, self.widgets@[i].config.id@));
                    }
                }
            }
            return None;
        }
        proof {
            assert(moving_id(self.widgets@, ids@[0]@, section_id@, Some(false)));
        }
        let ghost w = choose|i: int| 0 <= i < self.widgets@.len() && picks(self.widgets@[i], section_id@, Some(false)) && self.widgets@[i].config.id@ == ids@[0]@;
        let ghost orig = *self;
        let has_header = contains_str(&self.section_headers, section_id);
        let ghost ws0 = self.widgets@;
        dock_section_members(&mut self.widgets, section_id);
        proof {
            assert forall|a: int, b: int|
                0 <= a < self.widgets@.len() && 0 <= b < self.widgets@.len() && a != b implies
                self.widgets@[a].config.id@ != self.widgets@[b].config.id@ by {
                assert(self.widgets@[a].config.id == ws0[a].config.id);
                assert(self.widgets@[b].config.id == ws0[b].config.id);
            }
        }
        let ghost fw0 = self.section_float_wins@;
        let pos = Self::position_str(&self.section_float_wins, section_id);
        let had_window = pos.is_some();
        let k: usize = match pos {
            Some(k) => k,
            None => 0,
        };
        if had_window {
            self.section_float_wins.remove(k);
        }
        proof {
            assert forall|s: Seq<char>| names(self.section_float_wins@, s) <==> (names(fw0, s) && s != section_id@) by {
                if names(self.section_float_wins@, s) {
                    let j = choose|j: int| 0 <= j < self.section_float_wins@.len() && self.section_float_wins@[j]@ == s;
                    if had_window {
                        if j < k {
                            assert(self.section_float_wins@[j] == fw0[j]);
                        } else {
                            assert(self.section_float_wins@[j] == fw0[j + 1]);
                        }
                    } else {
                        assert(self.section_float_wins@[j] == fw0[j]);
                    }
                }
                if names(fw0, s) && s != section_id@ {
                    let j = choose|j: int| 0 <= j < fw0.len() && fw0[j]@ == s;
                    if had_window {
                        assert(j != k);
                        if j < k {
                            assert(self.section_float_wins@[j] == fw0[j]);
                        } else {
                            assert(self.section_float_wins@[j - 1] == fw0[j]);
                        }
                    } else {
                        assert(self.section_float_wins@[j] == fw0[j]);
                    }
                }
            }
            assert(had_window == names(fw0, section_id@));
        }
        let d = SectionDock { section_id: section_id.to_owned(), ids, has_header, had_window };
        proof {
            assert(self.widget_seq() == section_attached(ws0, section_id@));
            assert(d.section_id@ == section_id@);
            assert(lists_ids(d.ids@, ws0, section_id@, Some(false)));
            assert(d.had_window == names(fw0, section_id@));
            assert(forall|s: Seq<char>| names(self.float_window_seq(), s) <==> (names(fw0, s) && s != section_id@));
            assert(unique_strs(self.section_float_wins@));
            assert(returns_with(orig.widgets@[w], section_id@));
            assert(names(orig.section_boxes@, section_id@));
            assert(d.has_header == names(orig.section_headers@, section_id@));
            assert(self.next_handle == orig.next_handle);
            assert(self.section_boxes == orig.section_boxes);
            assert(self.section_headers == orig.section_headers);
            assert(self.has_application == orig.has_application);
            assert(self.detach_lock == orig.detach_lock);
            assert(ws0 == orig.widgets@);
            assert(fw0 == orig.section_float_wins@);
            assert(0 <= w < orig.widget_seq().len() && returns_with(orig.widget_seq()[w], section_id@));
            assert(exists|i: int| 0 <= i < orig.widget_seq().len() && returns_with(orig.widget_seq()[i], section_id@));
            assert(can_attach_section(orig, section_id@));
            assert(section_attach_effect(orig, *self, section_id@, d));
        }
        Some(d)
    }

    /// Registers a widget for every configuration in `configs` (a later
    /// configuration with a repeated id replaces the earlier one) and records
    /// which sections have a container.
    pub fn new(configs: Vec<DataWidgetConfig>, section_boxes: Vec<String>) -> (r: Self)
        ensures
            r.wf(),
            r.widget_seq() == registered(configs@),
            r.section_seq() == section_boxes@,
            r.header_seq().len() == 0,
            !r.application_set(),
            !r.locked(),
            r.float_window_seq().len() == 0,
            r.handle_counter() == 0,
    {
        let mut reg = WidgetRegistry {
            widgets: Vec::new(),
            section_boxes,
            section_headers: Vec::new(),
            has_application: false,
            detach_lock: false,
            section_float_wins: Vec::new(),
            next_handle: 0,
        };
        let mut k: usize = 0;
        proof {
            assert(configs@.take(0) =~= Seq::<DataWidgetConfig>::empty());
        }
        while k < configs.len()
            invariant
                k <= configs.len(),
                reg.widgets@ == registered(configs@.take(k as int)),
                reg.wf(),
                reg.section_boxes@ == section_boxes@,
                reg.section_headers@.len() == 0,
                !reg.has_application,
                !reg.detach_lock,
                reg.section_float_wins@.len() == 0,
                reg.next_handle == 0,
            decreases configs.len() - k,
        {
            let c = configs[k].clone();
            let ghost before = reg.widgets@;
            proof {
                assert(configs@.take(k + 1).drop_last() =~= configs@.take(k as int));
                assert(configs@.take(k + 1).last() == c);
                lemma_upsert_unique(before, fresh_widget(c));
            }
            match reg.find(c.id.as_str()) {
                Some(i) => {
                    reg.widgets.set(i, DataWidget::new(c));
                },
                None => {
                    reg.widgets.push(DataWidget::new(c));
                },
            }
            proof {
                assert(reg.widgets@ =~= upsert(before, fresh_widget(c)));
            }
            k = k + 1;
        }
        proof {
            assert(configs@.take(configs@.len() as int) =~= configs@);
        }
        reg
    }

    /// The widgets, in registry order.
    pub fn widget_list(&self) -> (r: &Vec<DataWidget>)
        ensures
            r@ == self.widget_seq(),
    {
        &self.widgets
    }

    /// Records that the application context needed to open windows is set.
    pub fn set_context(&mut self)
        requires
            old(self).wf(),
        ensures
            final(self).wf(),
            final(self).application_set(),
            final(self).widget_seq() == old(self).widget_seq(),
            final(self).section_seq() == old(self).section_seq(),
            final(self).header_seq() == old(self).header_seq(),
            final(self).locked() == old(self).locked(),
            final(self).float_window_seq() == old(self).float_window_seq(),
            final(self).handle_counter() == old(self).handle_counter(),
    {
        self.has_application = true;
    }

    /// Records which sections have a header label.
    pub fn set_section_headers(&mut self, headers: Vec<String>)
        requires
            old(self).wf(),
        ensures
            final(self).wf(),
            final(self).header_seq() == headers@,
            final(self).widget_seq() == old(self).widget_seq(),
            final(self).section_seq() == old(self).section_seq(),
            final(self).application_set() == old(self).application_set(),
            final(self).locked() == old(self).locked(),
            final(self).float_window_seq() == old(self).float_window_seq(),
            final(self).handle_counter() == old(self).handle_counter(),
    {
        self.section_headers = headers;
    }

    /// Copies every floating widget's live position into its configuration.
    pub fn pre_save_update_positions(&mut self)
        requires
            old(self).wf(),
        ensures
            final(self).wf(),
            final(self).widget_seq() == old(self).widget_seq().map_values(|w: DataWidget| spec_position_saved(w)),
            final(self).same_frame(old(self)),
    {
        let ghost ws0 = self.widgets@;
        save_positions(&mut self.widgets);
        proof {
            assert forall|a: int, b: int|
                0 <= a < self.widgets@.len() && 0 <= b < self.widgets@.len() && a != b implies
                self.widgets@[a].config.id@ != self.widgets@[b].config.id@ by {
                assert(self.widgets@[a].config.id == ws0[a].config.id);
                assert(self.widgets@[b].config.id == ws0[b].config.id);
            }
        }
    }

    /// The configuration of every widget, in registry order.
    pub fn save_layout(&self) -> (r: Vec<DataWidgetConfig>)
        ensures
            r@ == self.widget_seq().map_values(|w: DataWidget| w.config),
    {
        let mut r: Vec<DataWidgetConfig> = Vec::new();
        let mut i: usize = 0;
        while i < self.widgets.len()
            invariant
                i <= self.widgets.len(),
                r@ == self.widgets@.take(i as int).map_values(|w: DataWidget| w.config),
            decreases self.widgets.len() - i,
        {
            r.push(self.widgets[i].config.clone());
            proof {
                assert(r@ =~= self.widgets@.take(i + 1).map_values(|w: DataWidget| w.config));
            }
            i = i + 1;
        }
        proof {
            assert(self.widgets@.take(self.widgets@.len() as int) =~= self.widgets@);
        }
        r
    }

    /// Restores one saved configuration: see `restore_one`.
    fn restore_config(&mut self, c: &DataWidgetConfig, changes: &mut Vec<LayoutChange>)
        requires
            old(self).wf(),
        ensures
            final(self).wf(),
            ({
                let (ws, h, ch) = restore_one(
                    old(self).widget_seq(),
                    old(self).handle_counter(),
                    *c,
                    old(self).section_seq(),
                    old(self).application_set(),
                );
                &&& final(self).widget_seq() == ws
                &&& final(self).handle_counter() == h
                &&& final(changes)@ == old(changes)@ + ch
            }),
            final(self).section_seq() == old(self).section_seq(),
            final(self).header_seq() == old(self).header_seq(),
            final(self).application_set() == old(self).application_set(),
            final(self).locked() == old(self).locked(),
            final(self).float_window_seq() == old(self).float_window_seq(),
    {
        let ghost orig = *self;
        let ghost before = self.widgets@;
        let ghost ch0 = changes@;
        let i = match self.find(c.id.as_str()) {
            Some(i) => i,
            None => {
                proof {
                    assert(changes@ =~= ch0 + Seq::<LayoutChange>::empty());
                }
                return;
            },
        };
        let had_window = self.widgets[i].float_win;
        let boxed = contains_str(&self.section_boxes, self.widgets[i].config.section_id.as_str());
        self.widgets[i].config.margin_from_x = c.margin_from_x;
        self.widgets[i].config.margin_from_y = c.margin_from_y;
        let ghost m = self.widgets@[i as int];
        proof {
            assert(m == (DataWidget { config: before[i as int].config.with_margins(c.margin_from_x, c.margin_from_y), ..before[i as int] }));
        }
        if self.widgets[i].is_floating() && !had_window && boxed && self.has_application {
            let h = self.take_handle();
            let placement = self.widgets[i].open_window(h);
            changes.push(LayoutChange::WidgetDetached { id: self.widgets[i].config.id.clone(), placement });
            proof {
                assert(self.widgets@ =~= before.update(i as int, spec_detached(m, h)));
                assert(changes@ =~= ch0 + seq![LayoutChange::WidgetDetached { id: before[i as int].config.id, placement }]);
            }
        } else if self.widgets[i].is_docked() && had_window && boxed {
            self.widgets[i].dock();
            changes.push(LayoutChange::WidgetAttached { id: self.widgets[i].config.id.clone() });
            proof {
                assert(self.widgets@ =~= before.update(i as int, spec_attached(m)));
                assert(changes@ =~= ch0 + seq![LayoutChange::WidgetAttached { id: before[i as int].config.id }]);
            }
        } else {
            proof {
                assert(self.widgets@ =~= before.update(i as int, m));
                assert(changes@ =~= ch0 + Seq::<LayoutChange>::empty());
            }
        }
        proof {
            assert forall|a: int, b: int|
                0 <= a < self.widgets@.len() && 0 <= b < self.widgets@.len() && a != b implies
                self.widgets@[a].config.id@ != self.widgets@[b].config.id@ by {
                assert(self.widgets@[a].config.id == before[a].config.id);
                assert(self.widgets@[b].config.id == before[b].config.id);
            }
        }
    }

    /// Restores a saved layout, configuration by configuration in order:
    /// each widget named takes the saved margins; one saved as floating and
    /// without a window floats again in a new window at them, and one saved
    /// as docked that floats in a window is docked again.  Returns what the
    /// window system has to do, in order.
    pub fn restore_layout(&mut self, configs: &[DataWidgetConfig]) -> (changes: Vec<LayoutChange>)
        requires
            old(self).wf(),
        ensures
            final(self).wf(),
            (final(self).widget_seq(), final(self).handle_counter(), changes@) == restore_all(
                old(self).widget_seq(),
                old(self).handle_counter(),
                configs@,
                old(self).section_seq(),
                old(self).application_set(),
            ),
            final(self).section_seq() == old(self).section_seq(),
            final(self).header_seq() == old(self).header_seq(),
            final(self).application_set() == old(self).application_set(),
            final(self).locked() == old(self).locked(),
            final(self).float_window_seq() == old(self).float_window_seq(),
    {
        let ghost orig = *self;
        let mut changes: Vec<LayoutChange> = Vec::new();
        let mut k: usize = 0;
        proof {
            assert(configs@.take(0) =~= Seq::<DataWidgetConfig>::empty());
            assert(changes@ =~= Seq::<LayoutChange>::empty());
        }
        while k < configs.len()
            invariant
                k <= configs.len(),
                self.wf(),
                (self.widget_seq(), self.handle_counter(), changes@) == restore_all(
                    orig.widget_seq(),
                    orig.handle_counter(),
                    configs@.take(k as int),
                    orig.section_seq(),
                    orig.application_set(),
                ),
                self.section_seq() == orig.section_seq(),
                self.header_seq() == orig.header_seq(),
                self.application_set() == orig.application_set(),
                self.locked() == orig.locked(),
                self.float_window_seq() == orig.float_window_seq(),
            decreases configs.len() - k,
        {
            proof {
                assert(configs@.take(k + 1).drop_last() =~= configs@.take(k as int));
                assert(configs@.take(k + 1).last() == configs@[k as int]);
            }
            self.restore_config(&configs[k], &mut changes);
            k = k + 1;
        }
        proof {
            assert(configs@.take(configs@.len() as int) =~= configs@);
        }
        changes
    }

    /// The window with drag handle `handle` was dragged to `(top, right)`:
    /// every widget holding that handle follows.
    pub fn drag_moved(&mut self, handle: u64, top: i32, right: i32)
        requires
            old(self).wf(),
        ensures
            final(self).wf(),
            final(self).widget_seq() == dragged_all(old(self).widget_seq(), handle, top, right),
            final(self).same_frame(old(self)),
    {
        let ghost ws0 = self.widgets@;
        move_drag(&mut self.widgets, handle, top, right);
        proof {
            assert forall|a: int, b: int|
                0 <= a < self.widgets@.len() && 0 <= b < self.widgets@.len() && a != b implies
                self.widgets@[a].config.id@ != self.widgets@[b].config.id@ by {
                assert(self.widgets@[a].config.id == ws0[a].config.id);
                assert(self.widgets@[b].config.id == ws0[b].config.id);
            }
        }
    }

    /// `(top, right)` of the window with drag handle `handle`, as held by the
    /// first widget holding it; `None` when no widget holds it.
    pub fn drag_base(&self, handle: u64) -> (r: Option<(i32, i32)>)
        ensures
            r == drag_base_of(self.widget_seq(), handle),
            r is Some <==> exists|i: int| 0 <= i < self.widget_seq().len() && holds_handle(handle)(self.widget_seq()[i]),
            r matches Some(m) ==> {
                let k = first_where(self.widget_seq(), holds_handle(handle));
                let d = self.widget_seq()[k].drag_state->0;
                m == (d.top, d.right)
            },
    {
        let ghost p = holds_handle(handle);
        let mut i: usize = 0;
        while i < self.widgets.len()
            invariant
                i <= self.widgets.len(),
                p == holds_handle(handle),
                forall|j: int| 0 <= j < i ==> !p(self.widgets@[j]),
            decreases self.widgets.len() - i,
        {
            match self.widgets[i].drag_state {
                Some(d) => {
                    if d.handle == handle {
                        proof {
                            lemma_first_where(self.widgets@, p, i as int);
                        }
                        return Some((d.top, d.right));
                    }
                },
                None => {},
            }
            i = i + 1;
        }
        None
    }

    /// A double click (`n_press == 2`) on the header of widget `id`: unless
    /// the detach lock is on, a docked widget is detached and a floating one
    /// re-attached.
    pub fn on_widget_header_released(&mut self, id: &str, n_press: i32) -> (c: LayoutChange)
        requires
            old(self).wf(),
        ensures
            final(self).wf(),
            n_press != 2 || old(self).locked() ==> c is Unchanged && *final(self) == *old(self),
            n_press == 2 && !old(self).locked() && old(self).docked_widget(id@) ==> match c {
                LayoutChange::WidgetDetached { id: rid, placement } => rid@ == id@
                    && detach_widget_post(*old(self), *final(self), id@, Some(placement)),
                LayoutChange::Unchanged => detach_widget_post(*old(self), *final(self), id@, None),
                _ => false,
            },
            n_press == 2 && !old(self).locked() && !old(self).docked_widget(id@) ==> match c {
                LayoutChange::WidgetAttached { id: rid } => rid@ == id@
                    && attach_widget_post(*old(self), *final(self), id@, true),
                LayoutChange::Unchanged => attach_widget_post(*old(self), *final(self), id@, false),
                _ => false,
            },
    {
        if n_press != 2 || self.is_lock_active() {
            return LayoutChange::Unchanged;
        }
        if self.is_docked(id) {
            match self.detach_widget(id) {
                Some(placement) => LayoutChange::WidgetDetached { id: id.to_owned(), placement },
                None => LayoutChange::Unchanged,
            }
        } else {
            if self.reattach_widget(id) {
                LayoutChange::WidgetAttached { id: id.to_owned() }
            } else {
                LayoutChange::Unchanged
            }
        }
    }

    /// A double click (`n_press == 2`) on the header of section `sec`: unless
    /// the detach lock is on, a fully docked section is detached and any
    /// other re-attached.
    pub fn on_section_header_released(&mut self, section_id: &str, n_press: i32) -> (c: LayoutChange)
        requires
            old(self).wf(),
        ensures
            final(self).wf(),
            n_press != 2 || old(self).locked() ==> c is Unchanged && *final(self) == *old(self),
            n_press == 2 && !old(self).locked() && old(self).docked_section(section_id@) ==> match c {
                LayoutChange::SectionDetached(f) => detach_section_post(*old(self), *final(self), section_id@, Some(f)),
                LayoutChange::Unchanged => detach_section_post(*old(self), *final(self), section_id@, None),
                _ => false,
            },
            n_press == 2 && !old(self).locked() && !old(self).docked_section(section_id@) ==> match c {
                LayoutChange::SectionAttached(d) => attach_section_post(*old(self), *final(self), section_id@, Some(d)),
                LayoutChange::Unchanged => attach_section_post(*old(self), *final(self), section_id@, None),
                _ => false,
            },
    {
        if n_press != 2 || self.is_lock_active() {
            return LayoutChange::Unchanged;
        }
        if self.is_section_docked(section_id) {
            match self.detach_section(section_id) {
                Some(f) => LayoutChange::SectionDetached(f),
                None => LayoutChange::Unchanged,
            }
        } else {
            match self.reattach_section(section_id) {
                Some(d) => LayoutChange::SectionAttached(d),
                None => LayoutChange::Unchanged,
            }
        }
    }

    /// A double click (`n_press == 2`) on the floating window of widget `id`
    /// re-attaches it; the detach lock does not apply here.
    pub fn on_widget_window_released(&mut self, id: &str, n_press: i32) -> (c: LayoutChange)
        requires
            old(self).wf(),
        ensures
            final(self).wf(),
            n_press != 2 ==> c is Unchanged && *final(self) == *old(self),
            n_press == 2 ==> match c {
                LayoutChange::WidgetAttached { id: rid } => rid@ == id@
                    && attach_widget_post(*old(self), *final(self), id@, true),
                LayoutChange::Unchanged => attach_widget_post(*old(self), *final(self), id@, false),
                _ => false,
            },
    {
        if n_press != 2 {
            return LayoutChange::Unchanged;
        }
        if self.reattach_widget(id) {
            LayoutChange::WidgetAttached { id: id.to_owned() }
        } else {
            LayoutChange::Unchanged
        }
    }

    /// A double click (`n_press == 2`) on the floating window of section
    /// `sec` re-attaches the section; the detach lock does not apply here.
    pub fn on_section_window_released(&mut self, section_id: &str, n_press: i32) -> (c: LayoutChange)
        requires
            old(self).wf(),
        ensures
            final(self).wf(),
            n_press != 2 ==> c is Unchanged && *final(self) == *old(self),
            n_press == 2 ==> match c {
                LayoutChange::SectionAttached(d) => attach_section_post(*old(self), *final(self), section_id@, Some(d)),
                LayoutChange::Unchanged => attach_section_post(*old(self), *final(self), section_id@, None),
                _ => false,
            },
    {
        if n_press != 2 {
            return LayoutChange::Unchanged;
        }
        match self.reattach_section(section_id) {
            Some(d) => LayoutChange::SectionAttached(d),
            None => LayoutChange::Unchanged,
        }
    }
}


/// A well-formed registry holds no two widgets with one id, and no two
/// shared windows for one section.
pub proof fn lemma_wf_unique(r: WidgetRegistry)
    requires
        r.wf(),
    ensures
        unique_ids(r.widget_seq()),
        unique_strs(r.float_window_seq()),
{
}

/// A detached widget floats: its saved margins are never both zero.
pub proof fn lemma_detached_floats(w: DataWidget, h: u64)
    ensures
        !spec_detached(w, h).config.docked(),
{
}

/// The window of a detached section is never at the docked position.
pub proof fn lemma_anchor_floats(ws: Seq<DataWidget>, sec: Seq<char>)
    ensures
        section_anchor(ws, sec).0 != 0,
{
    if exists|i: int| 0 <= i < ws.len() && anchors(sec)(ws[i]) {
        let i = choose|i: int| 0 <= i < ws.len() && anchors(sec)(ws[i]);
        let k = first_where(ws, anchors(sec));
        if !is_first(ws, anchors(sec), k) {
            // the least anchoring index is a first one
            lemma_first_exists(ws, anchors(sec), i);
        }
    }
}

proof fn lemma_first_exists(ws: Seq<DataWidget>, p: spec_fn(DataWidget) -> bool, i: int)
    requires
        0 <= i < ws.len(),
        p(ws[i]),
    ensures
        is_first(ws, p, first_where(ws, p)),
    decreases i,
{
    if forall|j: int| 0 <= j < i ==> !p(ws[j]) {
        assert(is_first(ws, p, i));
    } else {
        let j = choose|j: int| 0 <= j < i && p(ws[j]);
        lemma_first_exists(ws, p, j);
    }
}

/// Detaching a docked widget and re-attaching it succeeds and gives every
/// widget back its configuration.
pub proof fn law_detach_then_reattach_widget(
    r0: WidgetRegistry,
    r1: WidgetRegistry,
    r2: WidgetRegistry,
    id: Seq<char>,
    p: Option<FloatPlacement>,
    done: bool,
)
    requires
        r0.wf(),
        r1.wf(),
        r0.can_detach(id),
        detach_widget_post(r0, r1, id, p),
        attach_widget_post(r1, r2, id, done),
    ensures
        done,
        r2.widget_seq().map_values(|w: DataWidget| w.config) == r0.widget_seq().map_values(|w: DataWidget| w.config),
{
    let ws0 = r0.widget_seq();
    let i = index_in(ws0, id);
    let h = r0.handle_counter();
    let ws1 = r1.widget_seq();
    assert(ws1[i].config.id@ == id);
    lemma_index_in(ws1, id, i);
    lemma_detached_floats(ws0[i], h);
    assert(r1.can_attach(id));
    let ws2 = r2.widget_seq();
    assert(ws2[i].config =~= ws0[i].config);
    assert(ws2.map_values(|w: DataWidget| w.config) =~= ws0.map_values(|w: DataWidget| w.config));
}

/// After a section is detached all of its widgets float in its window;
/// re-attaching it then succeeds, docks all of them, gives each its
/// configuration with zero margins, and leaves the widgets of other sections
/// as they were.
pub proof fn law_section_round_trip(
    r0: WidgetRegistry,
    r1: WidgetRegistry,
    r2: WidgetRegistry,
    sec: Seq<char>,
    f: SectionFloat,
    d: Option<SectionDock>,
)
    requires
        r0.wf(),
        detach_section_post(r0, r1, sec, Some(f)),
        attach_section_post(r1, r2, sec, d),
    ensures
        forall|i: int| 0 <= i < r1.widget_seq().len() && in_section(r1.widget_seq()[i], sec)
            ==> !(#[trigger] r1.widget_seq()[i]).config.docked(),
        d is Some,
        r2.docked_section(sec),
        r2.widget_seq().len() == r0.widget_seq().len(),
        forall|i: int| 0 <= i < r0.widget_seq().len() && in_section(r0.widget_seq()[i], sec)
            ==> (#[trigger] r2.widget_seq()[i]).config == r0.widget_seq()[i].config.with_margins(0, 0),
        forall|i: int| 0 <= i < r0.widget_seq().len() && !in_section(r0.widget_seq()[i], sec)
            ==> #[trigger] r2.widget_seq()[i] == r0.widget_seq()[i],
{
    let ws0 = r0.widget_seq();
    let (t, r) = section_anchor(ws0, sec);
    let h = r0.handle_counter();
    let ws1 = r1.widget_seq();
    lemma_anchor_floats(ws0, sec);
    assert forall|i: int| 0 <= i < ws1.len() && in_section(ws1[i], sec) implies !(#[trigger] ws1[i]).config.docked() by {
        assert(ws1[i] == spec_section_detached(ws0[i], h, t, r));
    }
    let w = choose|i: int| 0 <= i < ws0.len() && leaves_with(ws0[i], sec);
    assert(returns_with(ws1[w], sec));
    assert(can_attach_section(r1, sec));
    let ws2 = r2.widget_seq();
    assert forall|i: int| 0 <= i < ws0.len() && in_section(ws0[i], sec) implies (#[trigger] ws2[i]).config == ws0[i].config.with_margins(0, 0) by {
        assert(ws2[i] == spec_attached(spec_section_detached(ws0[i], h, t, r)));
        assert(ws2[i].config =~= ws0[i].config.with_margins(0, 0));
    }
}

/// Restoring the layout that `save_layout` reports, in a registry whose
/// widgets have a window exactly when they float, changes no widget, takes
/// no drag handle and asks nothing of the window system.
pub proof fn law_restore_saved_layout(ws: Seq<DataWidget>, h: u64, secs: Seq<String>, app: bool)
    requires
        unique_ids(ws),
        windows_match(ws),
    ensures
        restore_all(ws, h, ws.map_values(|v: DataWidget| v.config), secs, app) == (ws, h, Seq::<LayoutChange>::empty()),
{
    let cs = ws.map_values(|v: DataWidget| v.config);
    lemma_restore_own(ws, h, secs, app, ws.len() as int);
    assert(cs.take(ws.len() as int) =~= cs);
}

proof fn lemma_restore_own(ws: Seq<DataWidget>, h: u64, secs: Seq<String>, app: bool, n: int)
    requires
        unique_ids(ws),
        windows_match(ws),
        0 <= n <= ws.len(),
    ensures
        restore_all(ws, h, ws.map_values(|v: DataWidget| v.config).take(n), secs, app) == (ws, h, Seq::<LayoutChange>::empty()),
    decreases n,
{
    let cs = ws.map_values(|v: DataWidget| v.config).take(n);
    if n > 0 {
        assert(cs.drop_last() =~= ws.map_values(|v: DataWidget| v.config).take(n - 1));
        lemma_restore_own(ws, h, secs, app, n - 1);
        let c = cs.last();
        assert(c == ws[n - 1].config);
        lemma_index_in(ws, c.id@, n - 1);
        let w = ws[n - 1];
        assert(w.config.with_margins(c.margin_from_x, c.margin_from_y) =~= w.config);
        assert((DataWidget { config: w.config.with_margins(c.margin_from_x, c.margin_from_y), ..w }) == w);
        assert(ws.update(n - 1, w) =~= ws);
        assert(Seq::<LayoutChange>::empty() + Seq::<LayoutChange>::empty() =~= Seq::<LayoutChange>::empty());
    } else {
        assert(cs =~= Seq::<DataWidgetConfig>::empty());
    }
}

/// Restoring a configuration saved as floating gives its widget, when it has
/// no window, one at the saved margins (a zero margin taking the default),
/// provided its section has a container and the application context is set.
pub proof fn law_restore_floats_again(
    ws: Seq<DataWidget>,
    h: u64,
    c: DataWidgetConfig,
    secs: Seq<String>,
)
    requires
        unique_ids(ws),
        listed(ws, c.id@),
        !c.docked(),
        !ws[index_in(ws, c.id@)].float_win,
        names(secs, ws[index_in(ws, c.id@)].config.section_id@),
    ensures
        ({
            let i = index_in(ws, c.id@);
            let (ws2, h2, ch) = restore_all(ws, h, seq![c], secs, true);
            let (t, r) = spec_saved_margins(c);
            &&& ws2[i].float_win
            &&& ws2[i].config == ws[i].config.with_margins(r, t)
            &&& ws2[i].drag_state == Some(DragState { handle: h, top: t, right: r })
            &&& h2 == next_handle_after(h)
            &&& ch == seq![LayoutChange::WidgetDetached { id: ws[i].config.id, placement: FloatPlacement { handle: h, top: t, right: r } }]
        }),
{
    let cs = seq![c];
    assert(cs.drop_last() =~= Seq::<DataWidgetConfig>::empty());
    assert(cs.last() == c);
    assert(restore_all(ws, h, Seq::<DataWidgetConfig>::empty(), secs, true) == (ws, h, Seq::<LayoutChange>::empty()));
    let i = index_in(ws, c.id@);
    assert(0 <= i < ws.len() && ws[i].config.id@ == c.id@);
    let w = ws[i];
    let m = DataWidget { config: w.config.with_margins(c.margin_from_x, c.margin_from_y), ..w };
    assert(spec_saved_margins(m.config) == spec_saved_margins(c));
    assert(m.config.with_margins(spec_saved_margins(c).1, spec_saved_margins(c).0) =~= w.config.with_margins(spec_saved_margins(c).1, spec_saved_margins(c).0));
    assert(Seq::<LayoutChange>::empty() + seq![LayoutChange::WidgetDetached { id: w.config.id, placement: FloatPlacement { handle: h, top: spec_saved_margins(c).0, right: spec_saved_margins(c).1 } }]
        =~= seq![LayoutChange::WidgetDetached { id: w.config.id, placement: FloatPlacement { handle: h, top: spec_saved_margins(c).0, right: spec_saved_margins(c).1 } }]);
}

/// A drag gesture on the window of drag handle `h`, begun while its drag
/// state is `drag_base_of(ws, h)` = `(t, r)`: an update or the end with
/// offsets `(dx, dy)` leaves the drag state at `(t + dy, r - dx)`.
pub proof fn law_drag_gesture(ws: Seq<DataWidget>, h: u64, dx: i32, dy: i32)
    requires
        gesture_fits(drag_base_of(ws, h), dx, dy),
    ensures
        ({
            let target = gesture_target(drag_base_of(ws, h), dx, dy);
            drag_base_of(after_drag(ws, h, target), h) == target
        }),
        drag_base_of(ws, h) matches Some((t, r)) ==> gesture_target(drag_base_of(ws, h), dx, dy) == Some(((t + dy) as i32, (r - dx) as i32)),
{
    match drag_base_of(ws, h) {
        Some((t, r)) => {
            let nt = (t + dy) as i32;
            let nr = (r - dx) as i32;
            law_drag_then_base(ws, h, nt, nr);
        },
        None => {},
    }
}

/// An update or the end of a drag gesture that never began moves nothing.
pub proof fn law_drag_without_begin(ws: Seq<DataWidget>, h: u64, dx: i32, dy: i32)
    ensures
        after_drag(ws, h, gesture_target(None, dx, dy)) == ws,
{
}

/// A move of drag handle `h` that no widget holds changes no widget.
pub proof fn law_move_of_unheld_handle(ws: Seq<DataWidget>, h: u64, top: i32, right: i32)
    requires
        drag_base_of(ws, h) is None,
    ensures
        dragged_all(ws, h, top, right) == ws,
{
    assert forall|i: int| 0 <= i < ws.len() implies dragged_all(ws, h, top, right)[i] == ws[i] by {
        assert(!holds_handle(h)(ws[i]));
    }
    assert(dragged_all(ws, h, top, right) =~= ws);
}

/// After the window of drag handle `h` is dragged to `(t, r)`, its drag base
/// is `(t, r)`.
pub proof fn law_drag_then_base(ws: Seq<DataWidget>, h: u64, t: i32, r: i32)
    requires
        exists|i: int| 0 <= i < ws.len() && holds_handle(h)(ws[i]),
    ensures
        ({
            let moved = ws.map_values(|w: DataWidget| spec_dragged(w, h, t, r));
            let k = first_where(moved, holds_handle(h));
            &&& exists|i: int| 0 <= i < moved.len() && holds_handle(h)(moved[i])
            &&& moved[k].drag_state->0.top == t
            &&& moved[k].drag_state->0.right == r
        }),
{
    let moved = ws.map_values(|w: DataWidget| spec_dragged(w, h, t, r));
    let i = choose|i: int| 0 <= i < ws.len() && holds_handle(h)(ws[i]);
    assert(holds_handle(h)(moved[i]));
    lemma_first_exists(moved, holds_handle(h), i);
    let k = first_where(moved, holds_handle(h));
    assert(holds_handle(h)(moved[k]));
    assert(moved[k] == spec_dragged(ws[k], h, t, r));
}


proof fn lemma_keyed_push(s: Seq<DataWidgetConfig>, x: DataWidgetConfig, k: DataWidgetConfig)
    ensures
        keyed(s.push(x), k) == if same_key(x, k) { keyed(s, k).push(x) } else { keyed(s, k) },
{
    reveal(Seq::filter);
    assert(s.push(x).drop_last() =~= s);
}

proof fn lemma_keyed_none(s: Seq<DataWidgetConfig>, k: DataWidgetConfig)
    requires
        forall|i: int| 0 <= i < s.len() ==> !same_key(#[trigger] s[i], k),
    ensures
        keyed(s, k) == Seq::<DataWidgetConfig>::empty(),
    decreases s.len(),
{
    reveal(Seq::filter);
    if s.len() > 0 {
        lemma_keyed_none(s.drop_last(), k);
        assert(!same_key(s[s.len() - 1], k));
    }
}

proof fn lemma_keyed_insert(s: Seq<DataWidgetConfig>, p: int, x: DataWidgetConfig, k: DataWidgetConfig)
    requires
        0 <= p <= s.len(),
        forall|j: int| p <= j < s.len() ==> !same_key(#[trigger] s[j], x),
    ensures
        keyed(s.insert(p, x), k) == if same_key(x, k) { keyed(s, k).push(x) } else { keyed(s, k) },
{
    let a = s.take(p);
    let b = s.skip(p);
    assert(s =~= a + b);
    assert(s.insert(p, x) =~= a.push(x) + b);
    Seq::filter_distributes_over_add(a, b, key_of(k));
    Seq::filter_distributes_over_add(a.push(x), b, key_of(k));
    lemma_keyed_push(a, x, k);
    if same_key(x, k) {
        assert forall|i: int| 0 <= i < b.len() implies !same_key(#[trigger] b[i], k) by {
            assert(b[i] == s[p + i]);
        }
        lemma_keyed_none(b, k);
        assert(keyed(b, k) =~= Seq::<DataWidgetConfig>::empty());
        assert(keyed(a, k).push(x) + keyed(b, k) =~= keyed(a, k).push(x));
        assert(keyed(a, k) + keyed(b, k) =~= keyed(a, k));
    }
}

/// The widget configurations in their default order: by section, then by
/// position (0 for a widget without one); widgets with equal keys keep the
/// order they were given in.
pub fn default_configs(widgets: Vec<DataWidgetConfig>) -> (r: Vec<DataWidgetConfig>)
    ensures
        r.len() == widgets.len(),
        sorted_configs(r@),
        forall|k: DataWidgetConfig| #[trigger] keyed(r@, k) == keyed(widgets@, k),
{
    let mut out: Vec<DataWidgetConfig> = Vec::new();
    let mut i: usize = 0;
    proof {
        assert forall|k: DataWidgetConfig| #[trigger] keyed(out@, k) == keyed(widgets@.take(0), k) by {
            assert(out@ =~= widgets@.take(0));
        }
    }
    while i < widgets.len()
        invariant
            i <= widgets.len(),
            out.len() == i,
            sorted_configs(out@),
            forall|k: DataWidgetConfig| #[trigger] keyed(out@, k) == keyed(widgets@.take(i as int), k),
        decreases widgets.len() - i,
    {
        let x = widgets[i].clone();
        let mut p: usize = 0;
        while p < out.len() && !config_sorts_before(&x, &out[p])
            invariant
                p <= out.len(),
                forall|j: int| 0 <= j < p ==> !sorts_before(x, #[trigger] out@[j]),
            decreases out.len() - p,
        {
            p = p + 1;
        }
        let ghost before = out@;
        proof {
            assert forall|j: int| p <= j < before.len() implies sorts_before(x, #[trigger] before[j]) by {
                lemma_sorts_before_order(x, before[p as int], before[j]);
            }
            assert forall|j: int| p <= j < before.len() implies !same_key(#[trigger] before[j], x) by {
                lemma_sorts_before_order(x, before[j], x);
            }
        }
        out.insert(p, x);
        proof {
            let now = out@;
            assert(now == before.insert(p as int, x));
            assert forall|a: int, b: int| 0 <= a < b < now.len() implies !sorts_before(#[trigger] now[b], #[trigger] now[a]) by {
                if a < p && b < p {
                    assert(now[a] == before[a] && now[b] == before[b]);
                } else if a < p && b == p {
                    assert(now[a] == before[a]);
                } else if a < p {
                    assert(now[a] == before[a] && now[b] == before[b - 1]);
                } else if a == p {
                    assert(now[b] == before[b - 1]);
                    lemma_sorts_before_order(x, before[b - 1], x);
                } else {
                    assert(now[a] == before[a - 1] && now[b] == before[b - 1]);
                }
            }
            assert(widgets@.take(i + 1) =~= widgets@.take(i as int).push(x));
            assert forall|k: DataWidgetConfig| #[trigger] keyed(now, k) == keyed(widgets@.take(i + 1), k) by {
                lemma_keyed_insert(before, p as int, x, k);
                lemma_keyed_push(widgets@.take(i as int), x, k);
            }
        }
        i = i + 1;
    }
    proof {
        assert(widgets@.take(widgets@.len() as int) =~= widgets@);
    }
    out
}


/// A widget's id and the text its value label shows.
pub struct ValueUpdate {
    pub id: String,
    pub text: String,
}

impl WidgetRegistry {
    /// The value of every widget, in registry order: the reading its method names.
    pub fn update_all(&self, monitor_state: &MonitorState) -> (r: Vec<ValueUpdate>)
        requires
            monitor_state.wf(),
            forall|i: int| 0 <= i < self.widget_seq().len() && name_sums_traffic(#[trigger] self.widget_seq()[i].config.method@)
                ==> monitor_state.traffic_fits(),
        ensures
            r.len() == self.widget_seq().len(),
            forall|i: int| 0 <= i < r.len() ==> {
                &&& #[trigger] r[i].id@ == self.widget_seq()[i].config.id@
                &&& called(*monitor_state, self.widget_seq()[i].config.method@, r[i].text@)
            },
    {
        let mut r: Vec<ValueUpdate> = Vec::new();
        let mut i: usize = 0;
        while i < self.widgets.len()
            invariant
                i <= self.widgets.len(),
                r.len() == i,
                monitor_state.wf(),
                forall|j: int| 0 <= j < self.widgets@.len() && name_sums_traffic(#[trigger] self.widgets@[j].config.method@)
                    ==> monitor_state.traffic_fits(),
                forall|j: int| 0 <= j < i ==> {
                    &&& #[trigger] r[j].id@ == self.widgets@[j].config.id@
                    &&& called(*monitor_state, self.widgets@[j].config.method@, r[j].text@)
                },
            decreases self.widgets.len() - i,
        {
            let w = &self.widgets[i];
            let text = call_by_name(monitor_state, w.config.method.as_str());
            r.push(ValueUpdate { id: w.config.id.clone(), text });
            i = i + 1;
        }
        r
    }
}


proof fn lemma_keyed_first(s: Seq<DataWidgetConfig>, k: DataWidgetConfig)
    requires
        s.len() > 0,
    ensures
        keyed(s, k) == (if same_key(s[0], k) { seq![s[0]] } else { Seq::empty() }) + keyed(s.drop_first(), k),
{
    assert(s =~= seq![s[0]] + s.drop_first());
    s.drop_first().lemma_filter_prepend(s[0], key_of(k));
}

proof fn lemma_first_is_least(s: Seq<DataWidgetConfig>, x: DataWidgetConfig, k: DataWidgetConfig)
    requires
        s.len() > 0,
        sorted_configs(s),
        keyed(s, k).contains(x),
    ensures
        !sorts_before(x, s[0]),
{
    s.lemma_filter_contains_rev(key_of(k), x);
    let j = choose|j: int| 0 <= j < s.len() && s[j] == x;
    if j > 0 {
        assert(!sorts_before(s[j], s[0]));
    } else {
        lemma_sorts_before_order(x, x, x);
    }
}

/// The default order is determined: two lists that are both sorted and hold,
/// for every key, the same configurations in the same order, are equal.
pub proof fn law_default_order_unique(a: Seq<DataWidgetConfig>, b: Seq<DataWidgetConfig>)
    requires
        sorted_configs(a),
        sorted_configs(b),
        forall|k: DataWidgetConfig| #[trigger] keyed(a, k) == keyed(b, k),
    ensures
        a == b,
    decreases a.len() + b.len(),
{
    if a.len() == 0 || b.len() == 0 {
        if a.len() > 0 {
            lemma_keyed_first(a, a[0]);
            lemma_keyed_none(b, a[0]);
            assert(keyed(a, a[0]).len() > 0);
        } else if b.len() > 0 {
            lemma_keyed_first(b, b[0]);
            lemma_keyed_none(a, b[0]);
            assert(keyed(b, b[0]).len() > 0);
        } else {
            assert(a =~= b);
        }
    } else {
        let x = a[0];
        let y = b[0];
        lemma_keyed_first(a, x);
        lemma_keyed_first(b, y);
        assert(keyed(a, x)[0] == x);
        assert(keyed(b, x).contains(x)) by {
            assert(keyed(a, x).contains(x));
        }
        lemma_first_is_least(b, x, x);
        assert(keyed(a, y).contains(y)) by {
            assert(keyed(b, y)[0] == y);
            assert(keyed(b, y).contains(y));
        }
        lemma_first_is_least(a, y, y);
        lemma_sorts_before_order(x, y, x);
        assert(same_key(x, y));
        lemma_keyed_first(b, x);
        assert(keyed(b, x)[0] == y);
        assert(x == y);
        let a1 = a.drop_first();
        let b1 = b.drop_first();
        assert forall|k: DataWidgetConfig| #[trigger] keyed(a1, k) == keyed(b1, k) by {
            lemma_keyed_first(a, k);
            lemma_keyed_first(b, k);
            if same_key(x, k) {
                assert(keyed(a1, k) =~= keyed(a, k).drop_first());
                assert(keyed(b1, k) =~= keyed(b, k).drop_first());
            } else {
                assert(keyed(a1, k) =~= keyed(a, k));
                assert(keyed(b1, k) =~= keyed(b, k));
            }
        }
        assert(sorted_configs(a1)) by {
            assert forall|i: int, j: int| 0 <= i < j < a1.len() implies !sorts_before(#[trigger] a1[j], #[trigger] a1[i]) by {
                assert(a1[j] == a[j + 1] && a1[i] == a[i + 1]);
            }
        }
        assert(sorted_configs(b1)) by {
            assert forall|i: int, j: int| 0 <= i < j < b1.len() implies !sorts_before(#[trigger] b1[j], #[trigger] b1[i]) by {
                assert(b1[j] == b[j + 1] && b1[i] == b[i + 1]);
            }
        }
        law_default_order_unique(a1, b1);
        assert(a =~= seq![x] + a1);
        assert(b =~= seq![y] + b1);
    }
}

} // verus!
