//! The per-frame input snapshot the engines consume. The windowing layer
//! fills one of these from its event queue; the library only sees plain
//! values: positions in window pixels, times in milliseconds.

use vstd::prelude::*;

use crate::vec2::{Vec2, WindowSpace};

verus! {

/// Dragging begins once the cursor has moved this many pixels from the
/// press.
pub const MOUSE_DRAG_THRESHOLD_PX: i64 = 5;

/// A press shorter than this is a click; from this length on it is a hold.
pub const MOUSE_HOLD_THRESHOLD_MS: u64 = 250;

/// A mouse button event: whether it fired, when, and where the cursor was.
#[derive(Clone, Copy, Debug)]
pub struct MouseInput {
    pub state: bool,
    /// Milliseconds since an arbitrary fixed origin.
    pub time_ms: u64,
    pub pos: Vec2<i64, WindowSpace>,
}

/// Everything the engines may ask about a frame's input: the cursor, the
/// last press and release events, the held keys and the pressed keys that
/// the engines act on, each a plain flag.
#[derive(Clone, Copy, Debug)]
pub struct InputData {
    pub mouse_pos: Vec2<i64, WindowSpace>,
    pub mouse_down: bool,
    pub mouse_pressed: MouseInput,
    pub mouse_released: MouseInput,
    /// Milliseconds since the same origin as the mouse events, for hold
    /// detection against the current frame.
    pub now_ms: u64,
    pub key_space_pressed: bool,
    pub key_right_pressed: bool,
    pub key_up_pressed: bool,
    pub key_down_pressed: bool,
    pub key_tab_pressed: bool,
    pub key_c_pressed: bool,
    pub key_r_pressed: bool,
    pub key_w_held: bool,
    pub key_a_held: bool,
    pub key_s_held: bool,
    pub key_d_held: bool,
    pub key_alt_held: bool,
}

/// The cursor strayed at least the drag threshold from where the button
/// went down.
pub open spec fn spec_dragged(from: Vec2<i64, WindowSpace>, to: Vec2<i64, WindowSpace>) -> bool {
    to.x - from.x >= MOUSE_DRAG_THRESHOLD_PX || from.x - to.x >= MOUSE_DRAG_THRESHOLD_PX || to.y
        - from.y >= MOUSE_DRAG_THRESHOLD_PX || from.y - to.y >= MOUSE_DRAG_THRESHOLD_PX
}

impl InputData {
    /// Positions stay small enough for every coordinate computation.
    pub open spec fn wf(self) -> bool {
        &&& self.mouse_pos.abs_le(0x10000000int)
        &&& self.mouse_pressed.pos.abs_le(0x10000000int)
        &&& self.mouse_released.pos.abs_le(0x10000000int)
        &&& self.mouse_pressed.time_ms <= self.now_ms
    }

    /// The button is down right now and went down this frame.
    pub fn is_mouse_pressed(&self) -> (out: bool)
        ensures
            out == self.mouse_pressed.state,
    {
        self.mouse_pressed.state
    }

    pub fn is_mouse_down(&self) -> (out: bool)
        ensures
            out == self.mouse_down,
    {
        self.mouse_down
    }

    /// Down, with the cursor pulled past the drag threshold.
    pub fn is_mouse_dragging(&self) -> (out: bool)
        requires
            self.wf(),
        ensures
            out == (self.mouse_down && spec_dragged(self.mouse_pressed.pos, self.mouse_pos)),
    {
        if !self.mouse_down {
            return false;
        }
        let dx = self.mouse_pos.x - self.mouse_pressed.pos.x;
        let dy = self.mouse_pos.y - self.mouse_pressed.pos.y;
        dx >= MOUSE_DRAG_THRESHOLD_PX || -dx >= MOUSE_DRAG_THRESHOLD_PX || dy
            >= MOUSE_DRAG_THRESHOLD_PX || -dy >= MOUSE_DRAG_THRESHOLD_PX
    }

    /// Down, and for longer than the hold threshold.
    pub fn is_mouse_held(&self) -> (out: bool)
        requires
            self.wf(),
        ensures
            out == (self.mouse_down && self.now_ms - self.mouse_pressed.time_ms
                > MOUSE_HOLD_THRESHOLD_MS),
    {
        self.mouse_down && self.now_ms - self.mouse_pressed.time_ms > MOUSE_HOLD_THRESHOLD_MS
    }

    /// Released this frame after a drag.
    pub fn was_mouse_dragging(&self) -> (out: bool)
        requires
            self.wf(),
        ensures
            out == (self.mouse_released.state && spec_dragged(
                self.mouse_pressed.pos,
                self.mouse_released.pos,
            )),
    {
        if !self.mouse_released.state {
            return false;
        }
        let dx = self.mouse_released.pos.x - self.mouse_pressed.pos.x;
        let dy = self.mouse_released.pos.y - self.mouse_pressed.pos.y;
        dx >= MOUSE_DRAG_THRESHOLD_PX || -dx >= MOUSE_DRAG_THRESHOLD_PX || dy
            >= MOUSE_DRAG_THRESHOLD_PX || -dy >= MOUSE_DRAG_THRESHOLD_PX
    }

    /// Released this frame after a long press.
    pub fn was_mouse_held(&self) -> (out: bool)
        requires
            self.mouse_released.time_ms >= self.mouse_pressed.time_ms,
        ensures
            out == (self.mouse_released.state && self.mouse_released.time_ms
                - self.mouse_pressed.time_ms > MOUSE_HOLD_THRESHOLD_MS),
    {
        self.mouse_released.state && self.mouse_released.time_ms - self.mouse_pressed.time_ms
            > MOUSE_HOLD_THRESHOLD_MS
    }

    /// Released this frame after a short press: a click.
    pub fn was_mouse_pressed(&self) -> (out: bool)
        requires
            self.mouse_released.time_ms >= self.mouse_pressed.time_ms,
        ensures
            out == (self.mouse_released.state && self.mouse_released.time_ms
                - self.mouse_pressed.time_ms < MOUSE_HOLD_THRESHOLD_MS),
    {
        self.mouse_released.state && self.mouse_released.time_ms - self.mouse_pressed.time_ms
            < MOUSE_HOLD_THRESHOLD_MS
    }
}

} // verus!
