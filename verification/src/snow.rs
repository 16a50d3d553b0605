//! The snow overlay: whether its window is open, what each switch of it asks
//! the display to do, and the random sequence the flakes are placed with.

use vstd::prelude::*;

verus! {

/// What the display has to do with the snow window.
#[derive(Clone, Copy, PartialEq, Eq, Structural)]
pub enum WindowAction {
    /// Build the full-screen layer window with a fresh snow scene and present it.
    Open,
    /// Close the window and drop its scene.
    Close,
}

/// The snow overlay window's lifecycle, on a monitor of the given size in pixels.
pub struct SnowWindow {
    pub width: i32,
    pub height: i32,
    pub on: bool,
}

/// The window after `show`, and what the display does.
pub open spec fn shown(w: SnowWindow) -> (SnowWindow, Option<WindowAction>) {
    if w.on {
        (w, None)
    } else {
        (SnowWindow { on: true, ..w }, Some(WindowAction::Open))
    }
}

/// The window after `hide_window`, and what the display does.
pub open spec fn hidden(w: SnowWindow) -> (SnowWindow, Option<WindowAction>) {
    if w.on {
        (SnowWindow { on: false, ..w }, Some(WindowAction::Close))
    } else {
        (w, None)
    }
}

/// The window after `set_snow_state(on)`, and what the display does.
pub open spec fn switched(w: SnowWindow, on: bool) -> (SnowWindow, Option<WindowAction>) {
    if on && !w.on {
        shown(w)
    } else if !on && w.on {
        hidden(w)
    } else {
        (w, None)
    }
}

/// The window after `toggle`, and what the display does.
pub open spec fn toggled(w: SnowWindow) -> (SnowWindow, Option<WindowAction>) {
    if w.on {
        hidden(w)
    } else {
        shown(w)
    }
}

impl SnowWindow {
    /// A closed snow window for a monitor of `width` x `height` pixels.
    pub fn new(width: i32, height: i32) -> (w: Self)
        ensures
            w.width == width,
            w.height == height,
            !w.on,
    {
        SnowWindow { width, height, on: false }
    }

    /// Whether the snow window is open.
    pub fn is_on(&self) -> (r: bool)
        ensures
            r == self.on,
    {
        self.on
    }

    /// Opens the window unless it is open already.
    pub fn show(&mut self) -> (a: Option<WindowAction>)
        ensures
            (*final(self), a) == shown(*old(self)),
    {
        if self.is_on() {
            return None;
        }
        self.on = true;
        Some(WindowAction::Open)
    }

    /// Closes the window unless it is closed already.
    pub fn hide_window(&mut self) -> (a: Option<WindowAction>)
        ensures
            (*final(self), a) == hidden(*old(self)),
    {
        if !self.is_on() {
            return None;
        }
        self.on = false;
        Some(WindowAction::Close)
    }

    /// Opens or closes the window to match the switch.
    pub fn set_snow_state(&mut self, on: bool) -> (a: Option<WindowAction>)
        ensures
            (*final(self), a) == switched(*old(self), on),
    {
        if on && !self.is_on() {
            self.show()
        } else if !on && self.is_on() {
            self.hide_window()
        } else {
            None
        }
    }

    /// Closes an open window, opens a closed one.
    pub fn toggle(&mut self) -> (a: Option<WindowAction>)
        ensures
            (*final(self), a) == toggled(*old(self)),
    {
        if self.is_on() {
            self.hide_window()
        } else {
            self.show()
        }
    }

    /// The monitor's size in device pixels: its logical size times its scale.
    pub fn get_monitor_dimensions(width: i32, height: i32, scale: i32) -> (d: (i32, i32))
        requires
            i32::MIN <= width * scale <= i32::MAX,
            i32::MIN <= height * scale <= i32::MAX,
        ensures
            d == ((width * scale) as i32, (height * scale) as i32),
    {
        (width * scale, height * scale)
    }
}

/// After the switch is set, the window is open exactly when the switch is on.
pub proof fn law_switch_decides(w: SnowWindow, on: bool)
    ensures
        switched(w, on).0.on == on,
        switched(w, on).0.width == w.width,
        switched(w, on).0.height == w.height,
{
}

/// Setting the switch to the state the window is in asks nothing of the display.
pub proof fn law_switch_idempotent(w: SnowWindow, on: bool)
    ensures
        switched(switched(w, on).0, on) == (switched(w, on).0, None::<WindowAction>),
{
}

/// Toggling twice leaves the window as it was, after one open and one close.
pub proof fn law_toggle_twice(w: SnowWindow)
    ensures
        toggled(toggled(w).0).0 == w,
        toggled(w).1 is Some,
        toggled(toggled(w).0).1 is Some,
        toggled(w).1 != toggled(toggled(w).0).1,
{
}

/// Showing a shown window and hiding a hidden one change nothing.
pub proof fn law_show_hide_idempotent(w: SnowWindow)
    ensures
        shown(shown(w).0) == (shown(w).0, None::<WindowAction>),
        hidden(hidden(w).0) == (hidden(w).0, None::<WindowAction>),
{
}

/// The multiplier of the flakes' random sequence.
pub const LCG_MULTIPLIER: u64 = 6364136223846793005;

/// One step of the flakes' random sequence: `s * LCG_MULTIPLIER + 1` modulo 2^64.
pub open spec fn lcg_next(s: u64) -> u64 {
    ((s * LCG_MULTIPLIER + 1) % 0x1_0000_0000_0000_0000) as u64
}

/// The next seed: one step from the current seed, or, before the first
/// step (seed 0), from the clock's nanoseconds since the epoch.
pub fn next_seed(seed: u64, now_nanos: u64) -> (s: u64)
    ensures
        s == lcg_next(if seed == 0 { now_nanos } else { seed }),
{
    let start = if seed == 0 { now_nanos } else { seed };
    let m = start.wrapping_mul(LCG_MULTIPLIER);
    let s = m.wrapping_add(1);
    proof {
        let big = 0x1_0000_0000_0000_0000int;
        let p = start as int * LCG_MULTIPLIER as int;
        assert(m as int == p % big);
        assert((p % big + 1) % big == (p + 1) % big) by {
            vstd::arithmetic::div_mod::lemma_add_mod_noop(p, 1, big);
            vstd::arithmetic::div_mod::lemma_small_mod(1, big as nat);
        }
        if m as int + 1 > u64::MAX {
            assert(m as int == u64::MAX);
            assert(s as int == 0);
            assert((m as int + 1) % big == 0);
        } else {
            assert(s as int == m as int + 1);
            vstd::arithmetic::div_mod::lemma_small_mod((m as int + 1) as nat, big as nat);
        }
    }
    s
}

} // verus!
