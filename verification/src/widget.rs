//! One data row of the overlay: its persisted configuration and its
//! dock/float state.

use vstd::prelude::*;
use crate::dispatch::{call_by_name, called, name_sums_traffic};
use crate::monitor::MonitorState;
use crate::text::chars_of;

verus! {

/// Persisted configuration of one widget row.  A widget is docked exactly
/// when both margins are zero; any non-zero margin makes it floating.
pub struct DataWidgetConfig {
    pub id: String,
    pub header_text: String,
    pub section_id: String,
    pub method: String,
    pub display: String,
    pub value_type: String,
    pub order: Option<i32>,
    pub margin_from_x: i32,
    pub margin_from_y: i32,
}

impl Clone for DataWidgetConfig {
    fn clone(&self) -> (r: Self)
        ensures
            r == *self,
    {
        DataWidgetConfig {
            id: self.id.clone(),
            header_text: self.header_text.clone(),
            section_id: self.section_id.clone(),
            method: self.method.clone(),
            display: self.display.clone(),
            value_type: self.value_type.clone(),
            order: self.order,
            margin_from_x: self.margin_from_x,
            margin_from_y: self.margin_from_y,
        }
    }
}

impl DataWidgetConfig {
    /// Docked: both margins are zero.
    pub open spec fn docked(&self) -> bool {
        self.margin_from_x == 0 && self.margin_from_y == 0
    }

    /// Whether the widget is docked.
    pub fn is_docked(&self) -> (r: bool)
        ensures
            r == self.docked(),
    {
        self.margin_from_x == 0 && self.margin_from_y == 0
    }

    /// Whether the widget floats.
    pub fn is_floating(&self) -> (r: bool)
        ensures
            r == !self.docked(),
    {
        !self.is_docked()
    }

    /// The same configuration with the given margins.
    pub open spec fn with_margins(self, x: i32, y: i32) -> DataWidgetConfig {
        DataWidgetConfig { margin_from_x: x, margin_from_y: y, ..self }
    }
}

/// `a` comes before `b` in the lexicographic order of their characters,
/// the order `String`s compare in (UTF-8 bytes order as code points do).
pub open spec fn chars_lt(a: Seq<char>, b: Seq<char>) -> bool
    decreases a.len(),
{
    if a.len() == 0 {
        b.len() > 0
    } else if b.len() == 0 {
        false
    } else if a[0] != b[0] {
        (a[0] as int) < (b[0] as int)
    } else {
        chars_lt(a.drop_first(), b.drop_first())
    }
}

/// The position of a configuration within its section, 0 when it has none.
pub open spec fn order_of(c: DataWidgetConfig) -> int {
    match c.order {
        Some(o) => o as int,
        None => 0,
    }
}

/// `a` sorts strictly before `b`: by section, then by position.
pub open spec fn sorts_before(a: DataWidgetConfig, b: DataWidgetConfig) -> bool {
    chars_lt(a.section_id@, b.section_id@) || (a.section_id@ == b.section_id@ && order_of(a) < order_of(b))
}

/// `a` and `b` have the same section and position.
pub open spec fn same_key(a: DataWidgetConfig, b: DataWidgetConfig) -> bool {
    a.section_id@ == b.section_id@ && order_of(a) == order_of(b)
}

/// No configuration sorts before one listed ahead of it.
pub open spec fn sorted_configs(s: Seq<DataWidgetConfig>) -> bool {
    forall|i: int, j: int| 0 <= i < j < s.len() ==> !sorts_before(#[trigger] s[j], #[trigger] s[i])
}

/// Whether a configuration has the key of `k`.
pub open spec fn key_of(k: DataWidgetConfig) -> spec_fn(DataWidgetConfig) -> bool {
    |c: DataWidgetConfig| same_key(c, k)
}

/// The configurations of `s` with the key of `k`, in their order in `s`.
pub open spec fn keyed(s: Seq<DataWidgetConfig>, k: DataWidgetConfig) -> Seq<DataWidgetConfig> {
    s.filter(key_of(k))
}

proof fn lemma_chars_lt_irreflexive(a: Seq<char>)
    ensures
        !chars_lt(a, a),
    decreases a.len(),
{
    if a.len() > 0 {
        lemma_chars_lt_irreflexive(a.drop_first());
    }
}

proof fn lemma_chars_lt_total(a: Seq<char>, b: Seq<char>)
    ensures
        a != b ==> chars_lt(a, b) || chars_lt(b, a),
    decreases a.len(),
{
    if a.len() == 0 {
        if b.len() == 0 {
            assert(a =~= b);
        }
    } else if b.len() > 0 && a[0] != b[0] {
        assert((a[0] as int) != (b[0] as int));
    } else if b.len() > 0 {
        lemma_chars_lt_total(a.drop_first(), b.drop_first());
        if a.drop_first() == b.drop_first() {
            assert(a =~= seq![a[0]] + a.drop_first());
            assert(b =~= seq![b[0]] + b.drop_first());
            assert(a =~= b);
        }
    }
}

proof fn lemma_chars_lt_transitive(a: Seq<char>, b: Seq<char>, c: Seq<char>)
    ensures
        chars_lt(a, b) && chars_lt(b, c) ==> chars_lt(a, c),
    decreases a.len(),
{
    if a.len() > 0 && b.len() > 0 && c.len() > 0 {
        lemma_chars_lt_transitive(a.drop_first(), b.drop_first(), c.drop_first());
    }
}

/// The character order is a strict total order.
pub proof fn lemma_chars_lt_order(a: Seq<char>, b: Seq<char>, c: Seq<char>)
    ensures
        !chars_lt(a, a),
        chars_lt(a, b) ==> !chars_lt(b, a),
        a != b ==> chars_lt(a, b) || chars_lt(b, a),
        chars_lt(a, b) && chars_lt(b, c) ==> chars_lt(a, c),
{
    lemma_chars_lt_irreflexive(a);
    lemma_chars_lt_total(a, b);
    lemma_chars_lt_transitive(a, b, c);
    lemma_chars_lt_transitive(a, b, a);
}

/// `sorts_before` is a strict weak order whose ties are the equal keys.
pub proof fn lemma_sorts_before_order(a: DataWidgetConfig, b: DataWidgetConfig, c: DataWidgetConfig)
    ensures
        !sorts_before(a, a),
        sorts_before(a, b) ==> !sorts_before(b, a),
        !sorts_before(a, b) && !sorts_before(b, a) <==> same_key(a, b),
        sorts_before(a, b) && !sorts_before(c, b) ==> sorts_before(a, c),
        sorts_before(a, b) && sorts_before(b, c) ==> sorts_before(a, c),
{
    lemma_chars_lt_order(a.section_id@, b.section_id@, c.section_id@);
    lemma_chars_lt_order(b.section_id@, c.section_id@, a.section_id@);
    lemma_chars_lt_order(c.section_id@, a.section_id@, b.section_id@);
    lemma_chars_lt_order(a.section_id@, c.section_id@, b.section_id@);
    lemma_chars_lt_order(c.section_id@, b.section_id@, a.section_id@);
    lemma_chars_lt_order(b.section_id@, a.section_id@, c.section_id@);
}

/// Whether `a` comes before `b` in character order.
fn chars_less(a: &Vec<char>, b: &Vec<char>) -> (r: bool)
    ensures
        r == chars_lt(a@, b@),
{
    let mut i: usize = 0;
    proof {
        assert(a@.skip(0) =~= a@);
        assert(b@.skip(0) =~= b@);
    }
    while i < a.len() && i < b.len() && a[i] == b[i]
        invariant
            i <= a.len(),
            i <= b.len(),
            chars_lt(a@, b@) == chars_lt(a@.skip(i as int), b@.skip(i as int)),
        decreases a.len() - i,
    {
        proof {
            assert(a@.skip(i as int).drop_first() =~= a@.skip(i + 1));
            assert(b@.skip(i as int).drop_first() =~= b@.skip(i + 1));
            assert(a@.skip(i as int)[0] == b@.skip(i as int)[0]);
        }
        i = i + 1;
    }
    if i == a.len() {
        i < b.len()
    } else if i == b.len() {
        false
    } else {
        let ca = a[i];
        let cb = b[i];
        proof {
            assert(a@.skip(i as int)[0] == ca);
            assert(b@.skip(i as int)[0] == cb);
        }
        ca < cb
    }
}

/// Whether `a` sorts strictly before `b`.
pub fn config_sorts_before(a: &DataWidgetConfig, b: &DataWidgetConfig) -> (r: bool)
    ensures
        r == sorts_before(*a, *b),
{
    let sa = chars_of(a.section_id.as_str());
    let sb = chars_of(b.section_id.as_str());
    if chars_less(&sa, &sb) {
        return true;
    }
    let oa: i32 = match a.order {
        Some(o) => o,
        None => 0,
    };
    let ob: i32 = match b.order {
        Some(o) => o,
        None => 0,
    };
    let same = !chars_less(&sb, &sa) && sa.len() == sb.len();
    proof {
        lemma_chars_lt_order(sa@, sb@, sa@);
        if !chars_lt(sb@, sa@) && !chars_lt(sa@, sb@) {
            assert(sa@ == sb@);
        }
    }
    same && oa < ob
}

/// The list of widget configurations a layout description file holds.
pub struct WidgetFile {
    pub widgets: Vec<DataWidgetConfig>,
}

/// The live drag position of a floating window.  Widgets detached together
/// share one handle; a drag of their window moves every widget holding it.
#[derive(Clone, Copy, PartialEq, Eq, Structural)]
pub struct DragState {
    pub handle: u64,
    pub top: i32,
    pub right: i32,
}

/// Where a newly floating window goes and which drag handle it reports.
#[derive(Clone, Copy, PartialEq, Eq, Structural)]
pub struct FloatPlacement {
    pub handle: u64,
    pub top: i32,
    pub right: i32,
}

/// The margin used for a floating window when a saved margin is zero.
pub const DEFAULT_FLOAT_MARGIN: i32 = 70;

/// The position reported for a floating widget that has no drag state.
pub const UNTRACKED_FLOAT_POSITION: i32 = 60;

/// One widget row: its configuration, whether it owns (or shares) a floating
/// window, and the drag state of that window.
pub struct DataWidget {
    pub config: DataWidgetConfig,
    pub float_win: bool,
    pub drag_state: Option<DragState>,
}

/// The `(top, right)` margins a widget floats at when detached: its saved
/// margins, with zero replaced by the default.
pub open spec fn spec_saved_margins(c: DataWidgetConfig) -> (i32, i32) {
    (
        if c.margin_from_y == 0 { DEFAULT_FLOAT_MARGIN } else { c.margin_from_y },
        if c.margin_from_x == 0 { DEFAULT_FLOAT_MARGIN } else { c.margin_from_x },
    )
}

/// `(right, top)` position of a floating widget as tracked by its drag state.
pub open spec fn spec_float_position(w: DataWidget) -> (i32, i32) {
    match w.drag_state {
        Some(d) => (d.right, d.top),
        None => (UNTRACKED_FLOAT_POSITION, UNTRACKED_FLOAT_POSITION),
    }
}

/// The widget after detaching with drag handle `handle`.
pub open spec fn spec_detached(w: DataWidget, handle: u64) -> DataWidget {
    let (t, r) = spec_saved_margins(w.config);
    DataWidget {
        config: w.config.with_margins(r, t),
        float_win: true,
        drag_state: Some(DragState { handle, top: t, right: r }),
    }
}

/// The widget after moving, with its section, into the shared floating
/// window of drag handle `handle` at `(top, right)`.
pub open spec fn spec_section_detached(w: DataWidget, handle: u64, top: i32, right: i32) -> DataWidget {
    DataWidget {
        config: w.config.with_margins(right, top),
        float_win: true,
        drag_state: Some(DragState { handle, top, right }),
    }
}

/// The widget after its window with drag handle `handle` was dragged to
/// `(top, right)`; widgets on other windows are unaffected.
pub open spec fn spec_dragged(w: DataWidget, handle: u64, top: i32, right: i32) -> DataWidget {
    match w.drag_state {
        Some(d) => if d.handle == handle {
            DataWidget { drag_state: Some(DragState { handle, top, right }), ..w }
        } else {
            w
        },
        None => w,
    }
}

/// The widget after re-attaching to its section.
pub open spec fn spec_attached(w: DataWidget) -> DataWidget {
    DataWidget { config: w.config.with_margins(0, 0), float_win: false, drag_state: None }
}

/// The widget after copying its live floating position into its configuration.
pub open spec fn spec_position_saved(w: DataWidget) -> DataWidget {
    if w.config.docked() {
        w
    } else {
        let (r, t) = spec_float_position(w);
        DataWidget { config: w.config.with_margins(r, t), ..w }
    }
}

impl DataWidget {
    /// The text the widget's value label shows: the reading its method names.
    pub fn update_value(&self, monitor_state: &MonitorState) -> (s: String)
        requires
            monitor_state.wf(),
            name_sums_traffic(self.config.method@) ==> monitor_state.traffic_fits(),
        ensures
            called(*monitor_state, self.config.method@, s@),
    {
        call_by_name(monitor_state, self.config.method.as_str())
    }

    /// A fresh, not yet floating widget for `config`.
    pub fn new(config: DataWidgetConfig) -> (w: Self)
        ensures
            w.config == config,
            !w.float_win,
            w.drag_state is None,
    {
        DataWidget { config, float_win: false, drag_state: None }
    }

    /// Whether the widget is docked.
    pub fn is_docked(&self) -> (r: bool)
        ensures
            r == self.config.docked(),
    {
        self.config.is_docked()
    }

    /// Whether the widget floats.
    pub fn is_floating(&self) -> (r: bool)
        ensures
            r == !self.config.docked(),
    {
        !self.is_docked()
    }

    fn saved_margins(&self) -> (m: (i32, i32))
        ensures
            m == spec_saved_margins(self.config),
    {
        let t = if self.config.margin_from_y == 0 {
            DEFAULT_FLOAT_MARGIN
        } else {
            self.config.margin_from_y
        };
        let r = if self.config.margin_from_x == 0 {
            DEFAULT_FLOAT_MARGIN
        } else {
            self.config.margin_from_x
        };
        (t, r)
    }

    /// Takes a docked widget out of its section into a floating window at its
    /// saved margins; a floating widget is left as it is.
    pub fn detach(&mut self, handle: u64) -> (p: Option<FloatPlacement>)
        ensures
            old(self).config.docked() ==> {
                &&& *final(self) == spec_detached(*old(self), handle)
                &&& p == Some(FloatPlacement {
                    handle,
                    top: spec_saved_margins(old(self).config).0,
                    right: spec_saved_margins(old(self).config).1,
                })
            },
            !old(self).config.docked() ==> *final(self) == *old(self) && p is None,
    {
        if !self.is_docked() {
            return None;
        }
        let (t, r) = self.saved_margins();
        self.float_win = true;
        self.config.margin_from_x = r;
        self.config.margin_from_y = t;
        self.drag_state = Some(DragState { handle, top: t, right: r });
        Some(FloatPlacement { handle, top: t, right: r })
    }

    /// Opens a floating window for the widget at its saved margins, whether
    /// its configuration is docked or floating.
    pub(crate) fn open_window(&mut self, handle: u64) -> (p: FloatPlacement)
        ensures
            *final(self) == spec_detached(*old(self), handle),
            p == (FloatPlacement {
                handle,
                top: spec_saved_margins(old(self).config).0,
                right: spec_saved_margins(old(self).config).1,
            }),
    {
        let (t, r) = self.saved_margins();
        self.float_win = true;
        self.config.margin_from_x = r;
        self.config.margin_from_y = t;
        self.drag_state = Some(DragState { handle, top: t, right: r });
        FloatPlacement { handle, top: t, right: r }
    }

    /// Closes the widget's floating window, if any, and docks it.
    pub(crate) fn dock(&mut self)
        ensures
            *final(self) == spec_attached(*old(self)),
    {
        self.config.margin_from_x = 0;
        self.config.margin_from_y = 0;
        self.drag_state = None;
        self.float_win = false;
    }

    /// Moves the widget into the shared floating window of a detached section.
    pub(crate) fn join_section_window(&mut self, handle: u64, top: i32, right: i32)
        ensures
            *final(self) == spec_section_detached(*old(self), handle, top, right),
    {
        self.config.margin_from_x = right;
        self.config.margin_from_y = top;
        self.float_win = true;
        self.drag_state = Some(DragState { handle, top, right });
    }

    /// Records that the window with drag handle `handle` is now at `(top, right)`.
    pub(crate) fn follow_drag(&mut self, handle: u64, top: i32, right: i32)
        ensures
            *final(self) == spec_dragged(*old(self), handle, top, right),
    {
        match self.drag_state {
            Some(d) => {
                if d.handle == handle {
                    self.drag_state = Some(DragState { handle, top, right });
                }
            },
            None => {},
        }
    }

    /// `(right, top)` of the floating window, or the untracked default.
    pub fn get_float_position(&self) -> (p: (i32, i32))
        ensures
            p == spec_float_position(*self),
    {
        match self.drag_state {
            Some(d) => (d.right, d.top),
            None => (UNTRACKED_FLOAT_POSITION, UNTRACKED_FLOAT_POSITION),
        }
    }

    /// Copies the live floating position into the configuration.
    pub fn update_config_position(&mut self)
        ensures
            *final(self) == spec_position_saved(*old(self)),
    {
        if self.is_floating() {
            let (right_margin, top_margin) = self.get_float_position();
            self.config.margin_from_x = right_margin;
            self.config.margin_from_y = top_margin;
        }
    }

    /// Docks a floating widget back into its section; returns whether it was
    /// floating (a docked widget is left as it is).
    pub fn attach(&mut self) -> (r: bool)
        ensures
            r == !old(self).config.docked(),
            r ==> *final(self) == spec_attached(*old(self)),
            !r ==> *final(self) == *old(self),
    {
        if !self.is_floating() {
            return false;
        }
        self.config.margin_from_x = 0;
        self.config.margin_from_y = 0;
        self.drag_state = None;
        self.float_win = false;
        true
    }

    /// The window margins `(top, right)` while dragging by `(dx, dy)` from
    /// the margins `(base_top, base_right)` the drag started at.
    pub fn drag_position(base_top: i32, base_right: i32, dx: i32, dy: i32) -> (m: (i32, i32))
        requires
            i32::MIN <= base_top + dy <= i32::MAX,
            i32::MIN <= base_right - dx <= i32::MAX,
        ensures
            m.0 == base_top + dy,
            m.1 == base_right - dx,
    {
        (base_top + dy, base_right - dx)
    }
}

/// One drag gesture on a floating window: the drag state `(top, right)`
/// taken when the drag began, `None` before any begin.
pub struct DragGesture {
    pub base: Option<(i32, i32)>,
}

/// Where an update or the end of a drag by `(dx, dy)` puts the window of a
/// gesture begun at `base`: `(top + dy, right - dx)`, or nowhere (`None`)
/// when the drag never began.
pub open spec fn gesture_target(base: Option<(i32, i32)>, dx: i32, dy: i32) -> Option<(i32, i32)> {
    match base {
        Some((t, r)) => Some(((t + dy) as i32, (r - dx) as i32)),
        None => None,
    }
}

/// The offsets of a drag from `base` keep the margins within `i32`.
pub open spec fn gesture_fits(base: Option<(i32, i32)>, dx: i32, dy: i32) -> bool {
    base matches Some((t, r)) ==> i32::MIN <= t + dy <= i32::MAX && i32::MIN <= r - dx <= i32::MAX
}

impl DragGesture {
    /// A gesture no drag has begun on.
    pub fn new() -> (g: DragGesture)
        ensures
            g.base is None,
    {
        DragGesture { base: None }
    }

    /// A drag begins while the window's drag state is `state`.
    pub fn begin(&mut self, state: Option<(i32, i32)>)
        ensures
            final(self).base == state,
    {
        self.base = state;
    }

    /// An update or the end of the drag with offsets `(dx, dy)`: the new
    /// drag state and window margins `(top, right)`, `None` (nothing moves)
    /// when no drag began.
    pub fn moved(&self, dx: i32, dy: i32) -> (m: Option<(i32, i32)>)
        requires
            gesture_fits(self.base, dx, dy),
        ensures
            m == gesture_target(self.base, dx, dy),
    {
        match self.base {
            Some((t, r)) => Some(DataWidget::drag_position(t, r, dx, dy)),
            None => None,
        }
    }
}

} // verus!
