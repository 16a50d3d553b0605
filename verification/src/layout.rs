//! The saved overlay layout: the snow switch, the detach lock and every
//! widget's configuration, taken when the application shuts down and put
//! back when it starts.

use vstd::prelude::*;
use crate::registry::{law_restore_saved_layout, restore_all, unique_ids, windows_match, LayoutChange, WidgetRegistry};
use crate::snow::{SnowWindow, WindowAction, switched};
use crate::widget::{spec_position_saved, DataWidget, DataWidgetConfig};

verus! {

/// What the layout file holds.
pub struct LayoutFile {
    pub snow: bool,
    pub detach_lock: bool,
    pub widgets: Vec<DataWidgetConfig>,
}

/// Takes the layout to save: each floating widget's position is recorded
/// in its configuration first.
pub fn save_layout(registry: &mut WidgetRegistry, snow_window: &SnowWindow, detach_lock: bool) -> (layout: LayoutFile)
    requires
        old(registry).wf(),
    ensures
        final(registry).wf(),
        final(registry).widget_seq() == old(registry).widget_seq().map_values(|w: DataWidget| spec_position_saved(w)),
        final(registry).same_frame(old(registry)),
        layout.snow == snow_window.on,
        layout.detach_lock == detach_lock,
        layout.widgets@ == final(registry).widget_seq().map_values(|w: DataWidget| w.config),
{
    registry.pre_save_update_positions();
    let widgets = registry.save_layout();
    LayoutFile { snow: snow_window.is_on(), detach_lock, widgets }
}

/// Puts a saved layout back: the detach lock, the snow window, and every
/// widget's position, floating again the widgets saved as floating.
/// Returns what the display has to do with the snow window and, in order,
/// with the widgets' windows.
pub fn restore_layout_file(
    registry: &mut WidgetRegistry,
    snow_window: &mut SnowWindow,
    layout: &LayoutFile,
) -> (r: (Option<WindowAction>, Vec<LayoutChange>))
    requires
        old(registry).wf(),
    ensures
        final(registry).wf(),
        final(registry).locked() == layout.detach_lock,
        (final(registry).widget_seq(), final(registry).handle_counter(), r.1@) == restore_all(
            old(registry).widget_seq(),
            old(registry).handle_counter(),
            layout.widgets@,
            old(registry).section_seq(),
            old(registry).application_set(),
        ),
        final(registry).section_seq() == old(registry).section_seq(),
        final(registry).header_seq() == old(registry).header_seq(),
        final(registry).application_set() == old(registry).application_set(),
        final(registry).float_window_seq() == old(registry).float_window_seq(),
        (*final(snow_window), r.0) == switched(*old(snow_window), layout.snow),
        final(snow_window).on == layout.snow,
{
    registry.set_lock(layout.detach_lock);
    let a = snow_window.set_snow_state(layout.snow);
    if layout.snow {
        snow_window.show();
    }
    let changes = registry.restore_layout(layout.widgets.as_slice());
    (a, changes)
}

/// Putting back the layout just taken, where every widget has a window
/// exactly when it floats, changes no widget, asks nothing of the window
/// system, and leaves the snow window as it was without asking anything of
/// the display.
pub proof fn law_layout_round_trip(ws: Seq<DataWidget>, h: u64, secs: Seq<String>, app: bool, snow: SnowWindow)
    requires
        unique_ids(ws),
        windows_match(ws),
    ensures
        restore_all(ws, h, ws.map_values(|v: DataWidget| v.config), secs, app) == (ws, h, Seq::<LayoutChange>::empty()),
        switched(snow, snow.on) == (snow, None::<WindowAction>),
{
    law_restore_saved_layout(ws, h, secs, app);
}

} // verus!
